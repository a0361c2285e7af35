//! What holds of every state, step and plan.
//!
//! A state is well formed when its tables agree with each other. Every
//! step keeps a well-formed state well formed, and so a plan never has two
//! instruments of one satellite switched on at a time.
use crate::methods::{
    find_carrier, find_powered_on_instruments, is_powered, lemma_carrier_of, lemma_first_where,
};
use crate::operators::{
    lemma_without_contains, list_contains, run, GoalView, SatelliteEnum, SatelliteOperator,
    SatelliteState, StateView,
};
use crate::table::lists;
use vstd::prelude::*;

verus! {

impl StateView {
    /// Whether at most one instrument of each satellite is switched on.
    pub open spec fn power_is_exclusive(self) -> bool {
        forall|satellite: SatelliteEnum, a: SatelliteEnum, b: SatelliteEnum|
            #![trigger self.carries(satellite, a), self.carries(satellite, b)]
            self.carries(satellite, a) && self.carries(satellite, b) && self.power_on.contains(a)
                && self.power_on.contains(b) ==> a == b
    }

    /// Whether no instrument of a satellite with free power is switched on.
    pub open spec fn free_power_is_unused(self) -> bool {
        forall|satellite: SatelliteEnum, instrument: SatelliteEnum|
            #![trigger self.carries(satellite, instrument)]
            self.power_avail.contains_key(satellite) && self.power_avail[satellite] && self.carries(
                satellite,
                instrument,
            ) ==> !self.power_on.contains(instrument)
    }

    /// Whether no instrument is carried by two satellites.
    pub open spec fn instruments_are_unshared(self) -> bool {
        forall|first: SatelliteEnum, second: SatelliteEnum, instrument: SatelliteEnum|
            #![trigger self.carries(first, instrument), self.carries(second, instrument)]
            self.carries(first, instrument) && self.carries(second, instrument) ==> first == second
    }

    /// Whether some satellite carries `instrument`.
    pub open spec fn is_carried(self, instrument: SatelliteEnum) -> bool {
        exists|satellite: SatelliteEnum| self.carries(satellite, instrument)
    }

    /// Whether every instrument that is switched on is carried by a
    /// satellite.
    pub open spec fn powered_are_carried(self) -> bool {
        forall|instrument: SatelliteEnum| #[trigger]
            self.power_on.contains(instrument) ==> self.is_carried(instrument)
    }

    /// Whether every instrument that is calibrated is switched on.
    pub open spec fn calibrated_are_powered(self) -> bool {
        forall|instrument: SatelliteEnum| #[trigger]
            self.calibrated.contains(instrument) ==> self.power_on.contains(instrument)
    }

    /// Whether every satellite that carries instruments has a direction on
    /// record.
    pub open spec fn satellites_are_pointed(self) -> bool {
        forall|satellite: SatelliteEnum| #[trigger]
            self.onboard.contains_key(satellite) ==> self.pointing.contains_key(satellite)
    }

    /// Whether the tables of the state agree with each other.
    pub open spec fn well_formed(self) -> bool {
        &&& self.power_is_exclusive()
        &&& self.free_power_is_unused()
        &&& self.instruments_are_unshared()
        &&& self.powered_are_carried()
        &&& self.calibrated_are_powered()
        &&& self.satellites_are_pointed()
    }
}

/// A step that can be applied to a well-formed state leaves a well-formed
/// state.
pub proof fn lemma_step_keeps_state_well_formed(
    step: SatelliteOperator<SatelliteEnum>,
    state: StateView,
)
    requires
        state.well_formed(),
        step.enabled_in(state),
    ensures
        step.effect_on(state).well_formed(),
{
    let after = step.effect_on(state);
    assert forall|satellite: SatelliteEnum, instrument: SatelliteEnum|
        after.carries(satellite, instrument) == state.carries(satellite, instrument) by {}
    match step {
        SatelliteOperator::SwitchOn(instrument, _) => {
            lemma_without_contains(state.calibrated, instrument);
            assert forall|other: SatelliteEnum|
                after.power_on.contains(other) <==> other == instrument || state.power_on.contains(
                    other,
                ) by {
                if state.power_on.contains(other) {
                    let i = choose|i: int| 0 <= i < state.power_on.len() && state.power_on[i] == other;
                    assert(after.power_on[i] == other);
                }
                if other == instrument {
                    assert(after.power_on[state.power_on.len() as int] == other);
                }
            }
        },
        SatelliteOperator::SwitchOff(instrument, _) => {
            lemma_without_contains(state.calibrated, instrument);
            lemma_without_contains(state.power_on, instrument);
        },
        SatelliteOperator::Calibrate(_, _, _) => {
            assert forall|other: SatelliteEnum| #[trigger]
                after.calibrated.contains(other) implies after.power_on.contains(other) by {
                let i = choose|i: int| 0 <= i < after.calibrated.len() && after.calibrated[i] == other;
                if i < state.calibrated.len() {
                    assert(state.calibrated.contains(other));
                }
            }
        },
        _ => {},
    }
}

/// The steps before any point of a plan can be applied if the whole plan
/// can, and from a well-formed state they lead to a well-formed state.
pub proof fn lemma_plan_keeps_state_well_formed(
    plan: Seq<SatelliteOperator<SatelliteEnum>>,
    start: StateView,
    taken: int,
)
    requires
        start.well_formed(),
        run(plan, start).is_some(),
        0 <= taken <= plan.len(),
    ensures
        run(plan.take(taken), start) matches Some(reached) && reached.well_formed(),
    decreases taken,
{
    let before = plan.take(taken);
    if taken > 0 {
        let next = plan[0].effect_on(start);
        lemma_step_keeps_state_well_formed(plan[0], start);
        lemma_plan_keeps_state_well_formed(plan.skip(1), next, taken - 1);
        assert(before.skip(1) =~= plan.skip(1).take(taken - 1));
    }
}

/// Power is exclusive all along a plan: if the plan can be run from a
/// well-formed state, then after any number of its steps at most one
/// instrument of each satellite is switched on.
pub proof fn lemma_power_stays_exclusive(
    plan: Seq<SatelliteOperator<SatelliteEnum>>,
    start: StateView,
    taken: int,
)
    requires
        start.well_formed(),
        run(plan, start).is_some(),
        0 <= taken <= plan.len(),
    ensures
        run(plan.take(taken), start) matches Some(reached) && reached.power_is_exclusive(),
{
    lemma_plan_keeps_state_well_formed(plan, start, taken);
}

impl SatelliteOperator<SatelliteEnum> {
    /// Whether the step switches `instrument` on or off.
    pub open spec fn switches(self, instrument: SatelliteEnum) -> bool {
        match self {
            SatelliteOperator::SwitchOn(switched, _) => switched == instrument,
            SatelliteOperator::SwitchOff(switched, _) => switched == instrument,
            _ => false,
        }
    }

    /// Whether the step calibrates `instrument`.
    pub open spec fn calibrates(self, instrument: SatelliteEnum) -> bool {
        match self {
            SatelliteOperator::Calibrate(_, calibrated, _) => calibrated == instrument,
            _ => false,
        }
    }
}

/// An instrument that is not calibrated stays so as long as no step
/// calibrates it.
pub proof fn lemma_only_calibration_calibrates(
    later: Seq<SatelliteOperator<SatelliteEnum>>,
    state: StateView,
    instrument: SatelliteEnum,
)
    requires
        !state.calibrated.contains(instrument),
        forall|i: int| 0 <= i < later.len() ==> !(#[trigger] later[i]).calibrates(instrument),
        run(later, state).is_some(),
    ensures
        !run(later, state).unwrap().calibrated.contains(instrument),
    decreases later.len(),
{
    if later.len() > 0 {
        let step = later[0];
        let next = step.effect_on(state);
        match step {
            SatelliteOperator::SwitchOn(other, _) => {
                lemma_without_contains(state.calibrated, other);
            },
            SatelliteOperator::SwitchOff(other, _) => {
                lemma_without_contains(state.calibrated, other);
            },
            _ => {},
        }
        let rest = later.skip(1);
        lemma_only_calibration_calibrates(rest, next, instrument);
    }
}

/// Switching an instrument on or off takes its calibration away, and the
/// instrument stays without it through all later steps until one of them
/// calibrates it.
pub proof fn lemma_switching_invalidates_calibration(
    switch: SatelliteOperator<SatelliteEnum>,
    later: Seq<SatelliteOperator<SatelliteEnum>>,
    state: StateView,
    instrument: SatelliteEnum,
)
    requires
        switch.switches(instrument),
        switch.enabled_in(state),
        forall|i: int| 0 <= i < later.len() ==> !(#[trigger] later[i]).calibrates(instrument),
        run(later, switch.effect_on(state)).is_some(),
    ensures
        !switch.effect_on(state).calibrated.contains(instrument),
        !run(later, switch.effect_on(state)).unwrap().calibrated.contains(instrument),
{
    lemma_without_contains(state.calibrated, instrument);
    lemma_only_calibration_calibrates(later, switch.effect_on(state), instrument);
}

/// Whether a state meets a goal depends on the images and the pointing of
/// the state alone: two states that agree on both get the same answer, and
/// so does one state asked twice.
pub proof fn lemma_acceptance_depends_on_images_and_pointing(
    goal: GoalView,
    first: StateView,
    second: StateView,
)
    requires
        first.have_image == second.have_image,
        first.pointing == second.pointing,
    ensures
        goal.satisfied_by(first) == goal.satisfied_by(second),
{
    assert forall|direction: SatelliteEnum|
        goal.image_met(first, direction) == goal.image_met(second, direction) by {}
    assert forall|satellite: SatelliteEnum|
        goal.pointing_met(first, satellite) == goal.pointing_met(second, satellite) by {}
}

impl StateView {
    /// Whether at most one instrument of `satellite` is switched on.
    pub open spec fn power_is_exclusive_on(self, satellite: SatelliteEnum) -> bool {
        forall|a: SatelliteEnum, b: SatelliteEnum|
            #![trigger self.carries(satellite, a), self.carries(satellite, b)]
            self.carries(satellite, a) && self.carries(satellite, b) && self.power_on.contains(a)
                && self.power_on.contains(b) ==> a == b
    }

    /// Whether no instrument of `satellite` is switched on while its power
    /// is free.
    pub open spec fn free_power_is_unused_on(self, satellite: SatelliteEnum) -> bool {
        forall|instrument: SatelliteEnum|
            #![trigger self.carries(satellite, instrument)]
            self.power_avail.contains_key(satellite) && self.power_avail[satellite] && self.carries(
                satellite,
                instrument,
            ) ==> !self.power_on.contains(instrument)
    }

    /// Whether `satellite` is the first satellite to carry each of its
    /// instruments.
    pub open spec fn carries_first(self, satellite: SatelliteEnum) -> bool {
        forall|instrument: SatelliteEnum| #[trigger]
            self.carries(satellite, instrument) ==> self.carrier_of(instrument) == Some(satellite)
    }
}

/// Whether every satellite that carries instruments has a direction on
/// record.
pub fn satellites_are_pointed(state: &SatelliteState) -> (holds: bool)
    ensures
        holds == state@.satellites_are_pointed(),
{
    let n = state.onboard.len();
    let ghost satellites = state.onboard.keys();
    let mut i: usize = 0;
    while i < n
        invariant
            n == satellites.len(),
            satellites == state.onboard.keys(),
            lists(satellites, state@.onboard.dom()),
            i <= n,
            forall|j: int| 0 <= j < i ==> state@.pointing.contains_key(#[trigger] satellites[j]),
        decreases n - i,
    {
        let satellite = state.onboard.key_at(i);
        if !state.pointing.contains_key(&satellite) {
            return false;
        }
        i += 1;
    }
    true
}

/// Whether every instrument that is calibrated is switched on.
pub fn calibrated_are_powered(state: &SatelliteState) -> (holds: bool)
    ensures
        holds == state@.calibrated_are_powered(),
{
    let mut i: usize = 0;
    while i < state.calibrated.len()
        invariant
            i <= state.calibrated@.len(),
            forall|j: int|
                0 <= j < i ==> state@.power_on.contains(#[trigger] state@.calibrated[j]),
        decreases state.calibrated@.len() - i,
    {
        if !list_contains(&state.power_on, &state.calibrated[i]) {
            assert(state@.calibrated.contains(state@.calibrated[i as int]));
            return false;
        }
        i += 1;
    }
    true
}

/// Whether every instrument that is switched on is carried by a satellite.
pub fn powered_are_carried(state: &SatelliteState) -> (holds: bool)
    ensures
        holds == state@.powered_are_carried(),
{
    let mut i: usize = 0;
    while i < state.power_on.len()
        invariant
            i <= state.power_on@.len(),
            forall|j: int| 0 <= j < i ==> state@.is_carried(#[trigger] state@.power_on[j]),
        decreases state.power_on@.len() - i,
    {
        if find_carrier(state, &state.power_on[i]).is_none() {
            assert(state@.power_on.contains(state@.power_on[i as int]));
            return false;
        }
        i += 1;
    }
    true
}

/// Whether `satellite` is the first satellite to carry each of its
/// instruments.
pub fn carries_first(state: &SatelliteState, satellite: &SatelliteEnum) -> (holds: bool)
    ensures
        holds == state@.carries_first(*satellite),
{
    match state.onboard.get(satellite) {
        None => true,
        Some(members) => {
            let mut i: usize = 0;
            while i < members.len()
                invariant
                    state@.onboard.contains_key(*satellite),
                    members@ == state@.onboard[*satellite],
                    i <= members@.len(),
                    forall|j: int|
                        0 <= j < i ==> state@.carrier_of(#[trigger] members@[j]) == Some(*satellite),
                decreases members@.len() - i,
            {
                let found = find_carrier(state, &members[i]);
                let first = match found {
                    Some(other) => other == *satellite,
                    None => false,
                };
                if !first {
                    assert(state@.carries(*satellite, members@[i as int]));
                    return false;
                }
                i += 1;
            }
            true
        },
    }
}

/// Whether at most one instrument of `satellite` is switched on, and none
/// while its power is free.
pub fn power_is_settled_on(state: &SatelliteState, satellite: &SatelliteEnum) -> (holds: bool)
    ensures
        holds == (state@.power_is_exclusive_on(*satellite) && state@.free_power_is_unused_on(
            *satellite,
        )),
{
    let members = match state.onboard.get(satellite) {
        Some(members) => members,
        None => {
            return true;
        },
    };
    let found = find_powered_on_instruments(state, satellite);
    proof {
        lemma_first_where(members@, is_powered(state@));
    }
    match found {
        None => {
            true
        },
        Some(powered) => {
            assert(state@.carries(*satellite, powered) && state@.power_on.contains(powered));
            let free = match state.power_avail.get(satellite) {
                Some(free) => *free,
                None => false,
            };
            if free {
                return false;
            }
            let mut i: usize = 0;
            while i < members.len()
                invariant
                    state@.onboard.contains_key(*satellite),
                    members@ == state@.onboard[*satellite],
                    state@.carries(*satellite, powered),
                    state@.power_on.contains(powered),
                    i <= members@.len(),
                    forall|j: int|
                        0 <= j < i && state@.power_on.contains(#[trigger] members@[j])
                            ==> members@[j] == powered,
                decreases members@.len() - i,
            {
                if list_contains(&state.power_on, &members[i]) && members[i] != powered {
                    assert(state@.carries(*satellite, members@[i as int]));
                    return false;
                }
                i += 1;
            }
            true
        },
    }
}

impl SatelliteState {
    /// Whether the tables of the state agree with each other.
    pub fn is_well_formed(&self) -> (holds: bool)
        ensures
            holds == self@.well_formed(),
    {
        if !(satellites_are_pointed(self) && calibrated_are_powered(self) && powered_are_carried(
            self,
        )) {
            return false;
        }
        let n = self.onboard.len();
        let ghost satellites = self.onboard.keys();
        let mut i: usize = 0;
        while i < n
            invariant
                n == satellites.len(),
                satellites == self.onboard.keys(),
                lists(satellites, self@.onboard.dom()),
                self@.satellites_are_pointed(),
                self@.calibrated_are_powered(),
                self@.powered_are_carried(),
                i <= n,
                forall|j: int|
                    0 <= j < i ==> {
                        &&& self@.power_is_exclusive_on(#[trigger] satellites[j])
                        &&& self@.free_power_is_unused_on(satellites[j])
                        &&& self@.carries_first(satellites[j])
                    },
            decreases n - i,
        {
            let satellite = self.onboard.key_at(i);
            if !(power_is_settled_on(self, &satellite) && carries_first(self, &satellite)) {
                proof {
                    if !self@.carries_first(satellite) {
                        let instrument = choose|instrument: SatelliteEnum|
                            self@.carries(satellite, instrument) && self@.carrier_of(instrument)
                                != Some(satellite);
                        lemma_carrier_of(self@, instrument);
                    }
                }
                return false;
            }
            i += 1;
        }
        true
    }
}

} // verus!
