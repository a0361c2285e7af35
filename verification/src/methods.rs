//! The decomposition methods of the satellite domain.
//!
//! A method reads the state and the goal and offers task lists, each one a
//! way to go on. `ScheduleAll` offers one list for each image that is still
//! wanted, `ScheduleOne` lays out the steps for one image, and `Switching`
//! settles which instrument has the power.
use crate::operators::{
    list_contains, GoalView, SatelliteEnum, SatelliteGoals, SatelliteOperator, SatelliteState,
    StateView,
};
use crate::quantity::{Quantity, COUNT_LIMIT, UNITS_PER_ONE};
use crate::table::{lists, ordered_keys, Table};
use vstd::prelude::*;

verus! {

/// A way to split a task into smaller ones.
#[derive(Copy, Clone, PartialOrd, PartialEq, Ord, Eq, Debug)]
pub enum SatelliteMethod {
    /// Take every image that the goal still wants, then turn the
    /// satellites to where the goal wants them.
    ScheduleAll,
    /// Take one image: satellite, instrument, mode, new direction,
    /// previous direction.
    ScheduleOne(SatelliteEnum, SatelliteEnum, SatelliteEnum, SatelliteEnum, SatelliteEnum),
    /// Give the power of a satellite to an instrument: satellite,
    /// instrument.
    Switching(SatelliteEnum, SatelliteEnum),
}

/// Whether a state meets the image goals, and if not, the task at hand.
#[derive(Clone, Copy, PartialOrd, PartialEq, Ord, Eq, Debug)]
pub enum SatelliteStatus {
    Done,
    /// An identifier, then satellite, instrument, mode, new direction and
    /// previous direction.
    NotDone(u32, SatelliteEnum, SatelliteEnum, SatelliteEnum, SatelliteEnum, SatelliteEnum),
}

/// One entry of a task list: a step to apply or a method to expand.
#[derive(Copy, Clone, Debug, PartialEq, Eq)]
pub enum Task {
    Operator(SatelliteOperator<SatelliteEnum>),
    Method(SatelliteMethod),
}

/// What a method offers.
#[derive(Debug, PartialEq, Eq)]
pub enum MethodResult {
    /// Nothing is left to do.
    PlanFound,
    /// The task lists to try, in this order.
    TaskLists(Vec<Vec<Task>>),
    /// There is no way to go on.
    Failure,
}

/// What a method offers, as the contracts see it.
pub enum Decomposition {
    PlanFound,
    TaskLists(Seq<Seq<Task>>),
    Failure,
}

/// The task lists behind a vector of vectors.
pub open spec fn task_lists(lists: Seq<Vec<Task>>) -> Seq<Seq<Task>> {
    Seq::new(lists.len(), |i: int| lists[i]@)
}

impl View for MethodResult {
    type V = Decomposition;

    open spec fn view(&self) -> Decomposition {
        match self {
            MethodResult::PlanFound => Decomposition::PlanFound,
            MethodResult::TaskLists(lists) => Decomposition::TaskLists(task_lists(lists@)),
            MethodResult::Failure => Decomposition::Failure,
        }
    }
}

impl Task {
    /// Whether the task is a turn from a direction to that same direction.
    pub open spec fn is_redundant_turn(self) -> bool {
        match self {
            Task::Operator(SatelliteOperator::TurnTo(_, new, previous)) => new == previous,
            _ => false,
        }
    }
}

/// The first member of `items` of which `wanted` holds.
pub open spec fn first_where(
    items: Seq<SatelliteEnum>,
    wanted: spec_fn(SatelliteEnum) -> bool,
) -> Option<SatelliteEnum>
    decreases items.len(),
{
    if items.len() == 0 {
        None
    } else if wanted(items[0]) {
        Some(items[0])
    } else {
        first_where(items.skip(1), wanted)
    }
}

/// `first_where` finds a member of the sequence of which the predicate
/// holds, and finds one whenever there is one.
pub proof fn lemma_first_where(items: Seq<SatelliteEnum>, wanted: spec_fn(SatelliteEnum) -> bool)
    ensures
        match first_where(items, wanted) {
            Some(item) => items.contains(item) && wanted(item),
            None => forall|i: int| 0 <= i < items.len() ==> !wanted(#[trigger] items[i]),
        },
    decreases items.len(),
{
    if items.len() > 0 && !wanted(items[0]) {
        let rest = items.skip(1);
        lemma_first_where(rest, wanted);
        if first_where(rest, wanted).is_none() {
            assert forall|i: int| 0 <= i < items.len() implies !wanted(#[trigger] items[i]) by {
                if i > 0 {
                    assert(rest[i - 1] == items[i]);
                }
            }
        }
    }
}

/// The test that an instrument is switched on.
pub open spec fn is_powered(state: StateView) -> spec_fn(SatelliteEnum) -> bool {
    |instrument: SatelliteEnum| state.power_on.contains(instrument)
}

/// The test that an instrument supports `mode`.
pub open spec fn is_supporting(state: StateView, mode: SatelliteEnum) -> spec_fn(
    SatelliteEnum,
) -> bool {
    |instrument: SatelliteEnum| state.supports_mode(instrument, mode)
}

/// The test that a satellite carries `instrument`.
pub open spec fn is_carrying(state: StateView, instrument: SatelliteEnum) -> spec_fn(
    SatelliteEnum,
) -> bool {
    |satellite: SatelliteEnum| state.carries(satellite, instrument)
}

impl StateView {
    /// The first instrument of `satellite`, in the order in which it
    /// carries them, that is switched on.
    pub open spec fn powered_instrument(self, satellite: SatelliteEnum) -> Option<SatelliteEnum> {
        if self.onboard.contains_key(satellite) {
            first_where(self.onboard[satellite], is_powered(self))
        } else {
            None
        }
    }

    /// The first instrument, in the order of the instruments, that
    /// supports `mode`.
    pub open spec fn instrument_for(self, mode: SatelliteEnum) -> Option<SatelliteEnum> {
        first_where(ordered_keys(self.supports.dom()), is_supporting(self, mode))
    }

    /// The first satellite, in the order of the satellites, that carries
    /// `instrument`.
    pub open spec fn carrier_of(self, instrument: SatelliteEnum) -> Option<SatelliteEnum> {
        first_where(ordered_keys(self.onboard.dom()), is_carrying(self, instrument))
    }

    /// The first satellite that carries `instrument`, given that the
    /// instrument supports `mode`.
    pub open spec fn satellite_for(
        self,
        instrument: SatelliteEnum,
        mode: SatelliteEnum,
    ) -> Option<SatelliteEnum> {
        if self.supports_mode(instrument, mode) {
            self.carrier_of(instrument)
        } else {
            None
        }
    }
}

/// The first instrument of `satellite` that is switched on.
pub fn find_powered_on_instruments(state: &SatelliteState, satellite: &SatelliteEnum) -> (found:
    Option<SatelliteEnum>)
    ensures
        found == state@.powered_instrument(*satellite),
{
    match state.onboard.get(satellite) {
        None => None,
        Some(instruments) => {
            let ghost wanted = is_powered(state@);
            let mut i: usize = 0;
            assert(instruments@.skip(0) =~= instruments@);
            while i < instruments.len()
                invariant
                    i <= instruments@.len(),
                    state@.onboard.contains_key(*satellite),
                    instruments@ == state@.onboard[*satellite],
                    wanted == is_powered(state@),
                    first_where(instruments@, wanted) == first_where(
                        instruments@.skip(i as int),
                        wanted,
                    ),
                decreases instruments@.len() - i,
            {
                assert(instruments@.skip(i as int).skip(1) =~= instruments@.skip(i + 1));
                if list_contains(&state.power_on, &instruments[i]) {
                    return Some(instruments[i]);
                }
                i += 1;
            }
            None
        },
    }
}

/// Whether `satellite` points at `direction`.
pub fn is_satellite_pointing_in_direction(
    state: &SatelliteState,
    satellite: &SatelliteEnum,
    direction: &SatelliteEnum,
) -> (holds: bool)
    ensures
        holds == state@.points_at(*satellite, *direction),
{
    state.pointing_helper(satellite, direction)
}

/// Whether `satellite` carries `instrument`.
pub fn is_onboard(state: &SatelliteState, satellite: SatelliteEnum, instrument: SatelliteEnum) -> (holds:
    bool)
    ensures
        holds == state@.carries(satellite, instrument),
{
    state.carries(&satellite, &instrument)
}

/// The first instrument that supports `mode`, by a walk over all
/// instruments.
pub fn brute_force_instrument(state: &SatelliteState, mode: &SatelliteEnum) -> (found: Option<
    SatelliteEnum,
>)
    ensures
        found == state@.instrument_for(*mode),
{
    let n = state.supports.len();
    let ghost keys = state.supports.keys();
    let ghost wanted = is_supporting(state@, *mode);
    let mut i: usize = 0;
    assert(keys.skip(0) =~= keys);
    while i < n
        invariant
            n == keys.len(),
            keys == state.supports.keys(),
            wanted == is_supporting(state@, *mode),
            i <= n,
            first_where(keys, wanted) == first_where(keys.skip(i as int), wanted),
        decreases n - i,
    {
        assert(keys.skip(i as int).skip(1) =~= keys.skip(i + 1));
        let instrument = state.supports.key_at(i);
        if state.does_instrument_support_mode(&instrument, mode) {
            return Some(instrument);
        }
        i += 1;
    }
    None
}

/// The first satellite that carries `instrument`, by a walk over all
/// satellites.
pub fn find_carrier(state: &SatelliteState, instrument: &SatelliteEnum) -> (found: Option<
    SatelliteEnum,
>)
    ensures
        found == state@.carrier_of(*instrument),
        match found {
            Some(satellite) => state@.carries(satellite, *instrument),
            None => forall|satellite: SatelliteEnum| !state@.carries(satellite, *instrument),
        },
{
    let n = state.onboard.len();
    let ghost keys = state.onboard.keys();
    let ghost wanted = is_carrying(state@, *instrument);
    let mut i: usize = 0;
    assert(keys.skip(0) =~= keys);
    while i < n
        invariant
            n == keys.len(),
            keys == state.onboard.keys(),
            wanted == is_carrying(state@, *instrument),
            i <= n,
            first_where(keys, wanted) == first_where(keys.skip(i as int), wanted),
        decreases n - i,
    {
        assert(keys.skip(i as int).skip(1) =~= keys.skip(i + 1));
        let satellite = state.onboard.key_at(i);
        if is_onboard(state, satellite, *instrument) {
            return Some(satellite);
        }
        i += 1;
    }
    proof {
        lemma_carrier_of(state@, *instrument);
    }
    None
}

/// The satellite that `carrier_of` finds carries the instrument, and where
/// it finds none, no satellite does.
pub proof fn lemma_carrier_of(state: StateView, instrument: SatelliteEnum)
    requires
        lists(ordered_keys(state.onboard.dom()), state.onboard.dom()),
    ensures
        match state.carrier_of(instrument) {
            Some(satellite) => state.carries(satellite, instrument),
            None => forall|satellite: SatelliteEnum| !state.carries(satellite, instrument),
        },
{
    let keys = ordered_keys(state.onboard.dom());
    lemma_first_where(keys, is_carrying(state, instrument));
    assert(state.carrier_of(instrument) == first_where(keys, is_carrying(state, instrument)));
}

/// The first satellite that carries `instrument`, given that the
/// instrument supports `mode`.
pub fn brute_force_satellite(
    state: &SatelliteState,
    instrument: &SatelliteEnum,
    mode: &SatelliteEnum,
) -> (found: Option<SatelliteEnum>)
    ensures
        found == state@.satellite_for(*instrument, *mode),
{
    if state.does_instrument_support_mode(instrument, mode) {
        find_carrier(state, instrument)
    } else {
        None
    }
}

/// The task list without its turns from a direction to that same direction.
pub open spec fn without_redundant_turns(tasks: Seq<Task>) -> Seq<Task>
    decreases tasks.len(),
{
    if tasks.len() == 0 {
        tasks
    } else if tasks.last().is_redundant_turn() {
        without_redundant_turns(tasks.drop_last())
    } else {
        without_redundant_turns(tasks.drop_last()).push(tasks.last())
    }
}

/// Whether no task of the list is a turn from a direction to itself.
pub open spec fn free_of_redundant_turns(tasks: Seq<Task>) -> bool {
    forall|i: int| 0 <= i < tasks.len() ==> !(#[trigger] tasks[i]).is_redundant_turn()
}

/// `without_redundant_turns` leaves no redundant turn behind.
pub proof fn lemma_without_redundant_turns(tasks: Seq<Task>)
    ensures
        free_of_redundant_turns(without_redundant_turns(tasks)),
    decreases tasks.len(),
{
    if tasks.len() > 0 {
        lemma_without_redundant_turns(tasks.drop_last());
    }
}

/// Takes the turns from a direction to that same direction out of a task
/// list.
pub fn remove_redundant_turns(tasks: Vec<Task>) -> (kept: Vec<Task>)
    ensures
        kept@ == without_redundant_turns(tasks@),
        free_of_redundant_turns(kept@),
{
    let mut kept: Vec<Task> = Vec::new();
    let mut i: usize = 0;
    while i < tasks.len()
        invariant
            i <= tasks@.len(),
            kept@ == without_redundant_turns(tasks@.take(i as int)),
        decreases tasks@.len() - i,
    {
        proof {
            let upto = tasks@.take(i + 1);
            assert(upto.drop_last() =~= tasks@.take(i as int));
        }
        let keep = match tasks[i] {
            Task::Operator(SatelliteOperator::TurnTo(_, new, previous)) => new != previous,
            _ => true,
        };
        if keep {
            kept.push(tasks[i]);
        }
        i += 1;
    }
    proof {
        assert(tasks@.take(tasks@.len() as int) =~= tasks@);
        lemma_without_redundant_turns(tasks@);
    }
    kept
}

/// The steps that give the power of `satellite` to `instrument`: none if
/// the instrument is on; otherwise the instrument is switched on, after the
/// instrument of the satellite that is on, if there is one, was switched
/// off.
pub open spec fn switching_tasks(
    state: StateView,
    satellite: SatelliteEnum,
    instrument: SatelliteEnum,
) -> Seq<Task> {
    if state.power_on.contains(instrument) {
        Seq::empty()
    } else {
        match state.powered_instrument(satellite) {
            Some(other) => seq![
                Task::Operator(SatelliteOperator::SwitchOff(other, satellite)),
                Task::Operator(SatelliteOperator::SwitchOn(instrument, satellite)),
            ],
            None => seq![Task::Operator(SatelliteOperator::SwitchOn(instrument, satellite))],
        }
    }
}

/// The step that switches `other` off, if there is such an instrument.
pub open spec fn switch_off_first(other: Option<SatelliteEnum>, satellite: SatelliteEnum) -> Seq<
    Task,
> {
    match other {
        Some(other) => seq![Task::Operator(SatelliteOperator::SwitchOff(other, satellite))],
        None => Seq::empty(),
    }
}

/// The tasks for an image of the direction at which the satellite points:
/// settle the power, calibrate there, take the image.
pub open spec fn imaging_tasks_in_place(
    other: Option<SatelliteEnum>,
    satellite: SatelliteEnum,
    instrument: SatelliteEnum,
    mode: SatelliteEnum,
    new: SatelliteEnum,
) -> Seq<Task> {
    switch_off_first(other, satellite) + seq![
        Task::Method(SatelliteMethod::Switching(satellite, instrument)),
        Task::Operator(SatelliteOperator::Calibrate(satellite, instrument, new)),
        Task::Operator(SatelliteOperator::TakeImage(satellite, new, instrument, mode)),
    ]
}

/// The turn of `satellite` from `previous` to `new`, unless the two are
/// one direction.
pub open spec fn turn_if_needed(
    satellite: SatelliteEnum,
    new: SatelliteEnum,
    previous: SatelliteEnum,
) -> Seq<Task> {
    if new == previous {
        Seq::empty()
    } else {
        seq![Task::Operator(SatelliteOperator::TurnTo(satellite, new, previous))]
    }
}

/// The tasks for an image of a direction at which the satellite does not
/// point: the instrument that is on is switched off, the satellite turns
/// to the calibration target unless it is there, the power is settled, the
/// instrument is calibrated, the satellite turns to the new direction
/// unless it is there, and the image is taken.
pub open spec fn imaging_tasks_after_turn(
    other: Option<SatelliteEnum>,
    satellite: SatelliteEnum,
    instrument: SatelliteEnum,
    mode: SatelliteEnum,
    new: SatelliteEnum,
    previous: SatelliteEnum,
    target: SatelliteEnum,
) -> Seq<Task> {
    switch_off_first(other, satellite) + turn_if_needed(satellite, target, previous) + seq![
        Task::Method(SatelliteMethod::Switching(satellite, instrument)),
        Task::Operator(SatelliteOperator::Calibrate(satellite, instrument, target)),
    ] + turn_if_needed(satellite, new, target) + seq![
        Task::Operator(SatelliteOperator::TakeImage(satellite, new, instrument, mode)),
    ]
}

/// The tasks for an image after a turn are the list with both turns,
/// without the turns that would start where they end.
pub proof fn lemma_imaging_tasks_after_turn(
    other: Option<SatelliteEnum>,
    satellite: SatelliteEnum,
    instrument: SatelliteEnum,
    mode: SatelliteEnum,
    new: SatelliteEnum,
    previous: SatelliteEnum,
    target: SatelliteEnum,
)
    ensures
        imaging_tasks_after_turn(other, satellite, instrument, mode, new, previous, target)
            == without_redundant_turns(
            switch_off_first(other, satellite) + seq![
                Task::Operator(SatelliteOperator::TurnTo(satellite, target, previous)),
                Task::Method(SatelliteMethod::Switching(satellite, instrument)),
                Task::Operator(SatelliteOperator::Calibrate(satellite, instrument, target)),
                Task::Operator(SatelliteOperator::TurnTo(satellite, new, target)),
                Task::Operator(SatelliteOperator::TakeImage(satellite, new, instrument, mode)),
            ],
        ),
        free_of_redundant_turns(
            imaging_tasks_after_turn(other, satellite, instrument, mode, new, previous, target),
        ),
{
    let lead = switch_off_first(other, satellite);
    let first = Task::Operator(SatelliteOperator::TurnTo(satellite, target, previous));
    let switch = Task::Method(SatelliteMethod::Switching(satellite, instrument));
    let calibrate = Task::Operator(SatelliteOperator::Calibrate(satellite, instrument, target));
    let second = Task::Operator(SatelliteOperator::TurnTo(satellite, new, target));
    let image = Task::Operator(SatelliteOperator::TakeImage(satellite, new, instrument, mode));
    let five = lead + seq![first, switch, calibrate, second, image];
    let four = lead + seq![first, switch, calibrate, second];
    let three = lead + seq![first, switch, calibrate];
    let two = lead + seq![first, switch];
    let one = lead + seq![first];
    assert(five.drop_last() =~= four && five.last() == image);
    assert(four.drop_last() =~= three && four.last() == second);
    assert(three.drop_last() =~= two && three.last() == calibrate);
    assert(two.drop_last() =~= one && two.last() == switch);
    assert(one.drop_last() =~= lead && one.last() == first);
    assert(without_redundant_turns(lead) =~= lead) by {
        if lead.len() > 0 {
            assert(without_redundant_turns(lead.drop_last()) =~= Seq::<Task>::empty());
        }
    }
    assert(without_redundant_turns(two) =~= without_redundant_turns(one).push(switch));
    assert(without_redundant_turns(four) =~= without_redundant_turns(three) + turn_if_needed(
        satellite,
        new,
        target,
    ));
}

/// What `ScheduleOne` offers: one task list, laid out by whether the
/// satellite points at the new direction and by whether an instrument has
/// to be switched off first. It offers nothing where the state does not say
/// whether the satellite has power, or lacks the calibration target that a
/// turn would need.
pub open spec fn schedule_one_offer(
    state: StateView,
    satellite: SatelliteEnum,
    instrument: SatelliteEnum,
    mode: SatelliteEnum,
    new: SatelliteEnum,
    previous: SatelliteEnum,
) -> Decomposition {
    if !state.power_avail.contains_key(satellite) {
        Decomposition::Failure
    } else {
        let settled = !state.power_avail[satellite] || state.power_on.len() == 0;
        let other = if settled {
            None
        } else {
            state.powered_instrument(satellite)
        };
        if state.points_at(satellite, new) {
            Decomposition::TaskLists(
                seq![imaging_tasks_in_place(other, satellite, instrument, mode, new)],
            )
        } else if !state.calibration_target.contains_key(instrument) {
            Decomposition::Failure
        } else {
            Decomposition::TaskLists(
                seq![
                    imaging_tasks_after_turn(
                        other,
                        satellite,
                        instrument,
                        mode,
                        new,
                        previous,
                        state.calibration_target[instrument],
                    ),
                ],
            )
        }
    }
}

/// The offer of the single task list `tasks`.
pub fn one_task_list(tasks: Vec<Task>) -> (result: MethodResult)
    ensures
        result@ == Decomposition::TaskLists(seq![tasks@]),
{
    let ghost shown = tasks@;
    let mut all: Vec<Vec<Task>> = Vec::new();
    all.push(tasks);
    assert(task_lists(all@) =~= seq![shown]);
    MethodResult::TaskLists(all)
}

/// Settles which instrument of `satellite` has the power.
pub fn switching(state: &SatelliteState, satellite: SatelliteEnum, instrument: SatelliteEnum) -> (result:
    MethodResult)
    ensures
        result@ == Decomposition::TaskLists(seq![switching_tasks(state@, satellite, instrument)]),
{
    let mut tasks: Vec<Task> = Vec::new();
    if !list_contains(&state.power_on, &instrument) {
        match find_powered_on_instruments(state, &satellite) {
            Some(other) => {
                tasks.push(Task::Operator(SatelliteOperator::SwitchOff(other, satellite)));
                tasks.push(Task::Operator(SatelliteOperator::SwitchOn(instrument, satellite)));
            },
            None => {
                tasks.push(Task::Operator(SatelliteOperator::SwitchOn(instrument, satellite)));
            },
        }
    }
    assert(tasks@ =~= switching_tasks(state@, satellite, instrument));
    one_task_list(tasks)
}

/// The tasks for an image of the direction at which the satellite points,
/// where no instrument has to be switched off first.
pub fn schedule_pointing_with_powered_on_instruments(
    satellite: SatelliteEnum,
    instrument: SatelliteEnum,
    mode: SatelliteEnum,
    new_direction: SatelliteEnum,
) -> (result: MethodResult)
    ensures
        result@ == Decomposition::TaskLists(
            seq![imaging_tasks_in_place(None, satellite, instrument, mode, new_direction)],
        ),
{
    let mut tasks: Vec<Task> = Vec::new();
    tasks.push(Task::Method(SatelliteMethod::Switching(satellite, instrument)));
    tasks.push(Task::Operator(SatelliteOperator::Calibrate(satellite, instrument, new_direction)));
    tasks.push(
        Task::Operator(SatelliteOperator::TakeImage(satellite, new_direction, instrument, mode)),
    );
    assert(tasks@ =~= imaging_tasks_in_place(None, satellite, instrument, mode, new_direction));
    one_task_list(tasks)
}

/// The tasks for an image of the direction at which the satellite points,
/// where the instrument of the satellite that is on is switched off first.
pub fn schedule_pointing_with_powered_off_instruments(
    state: &SatelliteState,
    satellite: &SatelliteEnum,
    instrument: SatelliteEnum,
    mode: SatelliteEnum,
    new_direction: SatelliteEnum,
) -> (result: MethodResult)
    ensures
        result@ == Decomposition::TaskLists(
            seq![
                imaging_tasks_in_place(
                    state@.powered_instrument(*satellite),
                    *satellite,
                    instrument,
                    mode,
                    new_direction,
                ),
            ],
        ),
{
    let mut tasks: Vec<Task> = Vec::new();
    match find_powered_on_instruments(state, satellite) {
        Some(other) => {
            tasks.push(Task::Operator(SatelliteOperator::SwitchOff(other, *satellite)));
        },
        None => {},
    }
    tasks.push(Task::Method(SatelliteMethod::Switching(*satellite, instrument)));
    tasks.push(Task::Operator(SatelliteOperator::Calibrate(*satellite, instrument, new_direction)));
    tasks.push(
        Task::Operator(SatelliteOperator::TakeImage(*satellite, new_direction, instrument, mode)),
    );
    assert(tasks@ =~= imaging_tasks_in_place(
        state@.powered_instrument(*satellite),
        *satellite,
        instrument,
        mode,
        new_direction,
    ));
    one_task_list(tasks)
}

/// The tasks for an image of a direction at which the satellite does not
/// point, where no instrument has to be switched off first.
pub fn schedule_not_pointing_with_powered_on_instruments(
    satellite: SatelliteEnum,
    instrument: SatelliteEnum,
    mode: SatelliteEnum,
    new_direction: SatelliteEnum,
    previous_direction: SatelliteEnum,
    calibration_target_direction: &SatelliteEnum,
) -> (result: MethodResult)
    ensures
        result@ == Decomposition::TaskLists(
            seq![
                imaging_tasks_after_turn(
                    None,
                    satellite,
                    instrument,
                    mode,
                    new_direction,
                    previous_direction,
                    *calibration_target_direction,
                ),
            ],
        ),
{
    let target = *calibration_target_direction;
    let mut tasks: Vec<Task> = Vec::new();
    tasks.push(Task::Operator(SatelliteOperator::TurnTo(satellite, target, previous_direction)));
    tasks.push(Task::Method(SatelliteMethod::Switching(satellite, instrument)));
    tasks.push(Task::Operator(SatelliteOperator::Calibrate(satellite, instrument, target)));
    tasks.push(Task::Operator(SatelliteOperator::TurnTo(satellite, new_direction, target)));
    tasks.push(
        Task::Operator(SatelliteOperator::TakeImage(satellite, new_direction, instrument, mode)),
    );
    proof {
        assert(tasks@ =~= switch_off_first(None, satellite) + seq![
            Task::Operator(SatelliteOperator::TurnTo(satellite, target, previous_direction)),
            Task::Method(SatelliteMethod::Switching(satellite, instrument)),
            Task::Operator(SatelliteOperator::Calibrate(satellite, instrument, target)),
            Task::Operator(SatelliteOperator::TurnTo(satellite, new_direction, target)),
            Task::Operator(SatelliteOperator::TakeImage(satellite, new_direction, instrument, mode)),
        ]);
        lemma_imaging_tasks_after_turn(
            None,
            satellite,
            instrument,
            mode,
            new_direction,
            previous_direction,
            target,
        );
    }
    one_task_list(remove_redundant_turns(tasks))
}

/// The tasks for an image of a direction at which the satellite does not
/// point, where the instrument of the satellite that is on is switched off
/// first.
pub fn schedule_not_pointing_with_powered_off_instruments(
    state: &SatelliteState,
    satellite: &SatelliteEnum,
    instrument: SatelliteEnum,
    mode: SatelliteEnum,
    new_direction: SatelliteEnum,
    previous_direction: SatelliteEnum,
    calibration_target_direction: &SatelliteEnum,
) -> (result: MethodResult)
    ensures
        result@ == Decomposition::TaskLists(
            seq![
                imaging_tasks_after_turn(
                    state@.powered_instrument(*satellite),
                    *satellite,
                    instrument,
                    mode,
                    new_direction,
                    previous_direction,
                    *calibration_target_direction,
                ),
            ],
        ),
{
    let target = *calibration_target_direction;
    let mut tasks: Vec<Task> = Vec::new();
    match find_powered_on_instruments(state, satellite) {
        Some(other) => {
            tasks.push(Task::Operator(SatelliteOperator::SwitchOff(other, *satellite)));
        },
        None => {},
    }
    tasks.push(Task::Operator(SatelliteOperator::TurnTo(*satellite, target, previous_direction)));
    tasks.push(Task::Method(SatelliteMethod::Switching(*satellite, instrument)));
    tasks.push(Task::Operator(SatelliteOperator::Calibrate(*satellite, instrument, target)));
    tasks.push(Task::Operator(SatelliteOperator::TurnTo(*satellite, new_direction, target)));
    tasks.push(
        Task::Operator(SatelliteOperator::TakeImage(*satellite, new_direction, instrument, mode)),
    );
    proof {
        assert(tasks@ =~= switch_off_first(state@.powered_instrument(*satellite), *satellite)
            + seq![
            Task::Operator(SatelliteOperator::TurnTo(*satellite, target, previous_direction)),
            Task::Method(SatelliteMethod::Switching(*satellite, instrument)),
            Task::Operator(SatelliteOperator::Calibrate(*satellite, instrument, target)),
            Task::Operator(SatelliteOperator::TurnTo(*satellite, new_direction, target)),
            Task::Operator(SatelliteOperator::TakeImage(*satellite, new_direction, instrument, mode)),
        ]);
        lemma_imaging_tasks_after_turn(
            state@.powered_instrument(*satellite),
            *satellite,
            instrument,
            mode,
            new_direction,
            previous_direction,
            target,
        );
    }
    one_task_list(remove_redundant_turns(tasks))
}

/// Lays out the tasks for one image.
pub fn schedule_one(
    state: &SatelliteState,
    satellite: SatelliteEnum,
    instrument: SatelliteEnum,
    mode: SatelliteEnum,
    new_direction: SatelliteEnum,
    previous_direction: SatelliteEnum,
) -> (result: MethodResult)
    ensures
        result@ == schedule_one_offer(
            state@,
            satellite,
            instrument,
            mode,
            new_direction,
            previous_direction,
        ),
{
    let power_is_free = match state.power_avail.get(&satellite) {
        Some(free) => *free,
        None => {
            return MethodResult::Failure;
        },
    };
    let settled = !power_is_free || state.power_on.is_empty();
    if is_satellite_pointing_in_direction(state, &satellite, &new_direction) {
        if settled {
            schedule_pointing_with_powered_on_instruments(
                satellite,
                instrument,
                mode,
                new_direction,
            )
        } else {
            schedule_pointing_with_powered_off_instruments(
                state,
                &satellite,
                instrument,
                mode,
                new_direction,
            )
        }
    } else {
        let target = match state.calibration_target.get(&instrument) {
            Some(target) => target,
            None => {
                return MethodResult::Failure;
            },
        };
        if settled {
            schedule_not_pointing_with_powered_on_instruments(
                satellite,
                instrument,
                mode,
                new_direction,
                previous_direction,
                target,
            )
        } else {
            schedule_not_pointing_with_powered_off_instruments(
                state,
                &satellite,
                instrument,
                mode,
                new_direction,
                previous_direction,
                target,
            )
        }
    }
}

/// The task list that `ScheduleAll` offers for the image of `direction`:
/// `ScheduleOne` for the first instrument that supports the wanted mode, on
/// the first satellite that carries it, then `ScheduleAll` again. There is
/// none where no instrument supports the mode, no satellite carries the
/// instrument, or the state does not say where the satellite points.
pub open spec fn image_tasks(state: StateView, goal: GoalView, direction: SatelliteEnum) -> Option<
    Seq<Task>,
> {
    let mode = goal.have_image[direction];
    match state.instrument_for(mode) {
        None => None,
        Some(instrument) => match state.satellite_for(instrument, mode) {
            None => None,
            Some(satellite) => if state.pointing.contains_key(satellite) {
                Some(
                    seq![
                        Task::Method(
                            SatelliteMethod::ScheduleOne(
                                satellite,
                                instrument,
                                mode,
                                direction,
                                state.pointing[satellite],
                            ),
                        ),
                        Task::Method(SatelliteMethod::ScheduleAll),
                    ],
                )
            } else {
                None
            },
        },
    }
}

/// The task lists that `ScheduleAll` offers for the images of
/// `directions` that the state lacks, in the order of `directions`.
pub open spec fn image_alternatives(
    state: StateView,
    goal: GoalView,
    directions: Seq<SatelliteEnum>,
) -> Seq<Seq<Task>>
    decreases directions.len(),
{
    if directions.len() == 0 {
        Seq::empty()
    } else {
        let before = image_alternatives(state, goal, directions.drop_last());
        if goal.image_met(state, directions.last()) {
            before
        } else {
            match image_tasks(state, goal, directions.last()) {
                Some(tasks) => before.push(tasks),
                None => before,
            }
        }
    }
}

/// Those of `satellites` that point elsewhere than the goal wants, each
/// with the direction that the goal wants, in the order of `satellites`.
pub open spec fn pending_pointings(
    state: StateView,
    goal: GoalView,
    satellites: Seq<SatelliteEnum>,
) -> Seq<(SatelliteEnum, SatelliteEnum)>
    decreases satellites.len(),
{
    if satellites.len() == 0 {
        Seq::empty()
    } else {
        let before = pending_pointings(state, goal, satellites.drop_last());
        let satellite = satellites.last();
        if state.pointing.contains_key(satellite) && state.pointing[satellite]
            != goal.pointing[satellite] {
            before.push((satellite, goal.pointing[satellite]))
        } else {
            before
        }
    }
}

/// The turns that bring the satellites of `pending` to the directions
/// given with them.
pub open spec fn turns_for(state: StateView, pending: Seq<(SatelliteEnum, SatelliteEnum)>) -> Seq<
    Task,
> {
    Seq::new(
        pending.len(),
        |i: int|
            Task::Operator(
                SatelliteOperator::TurnTo(pending[i].0, pending[i].1, state.pointing[pending[i].0]),
            ),
    )
}

/// The turns that bring every satellite to where the goal wants it.
pub open spec fn final_turns(state: StateView, goal: GoalView) -> Seq<Task> {
    turns_for(state, pending_pointings(state, goal, ordered_keys(goal.pointing.dom())))
}

/// What `ScheduleAll` offers. While images are wanted: one task list for
/// each of them that has one, and nothing if none has. Once the state holds
/// every wanted image: the turns that are still needed as the one task
/// list, or the word that nothing is left to do.
pub open spec fn schedule_all_offer(state: StateView, goal: GoalView) -> Decomposition {
    if goal.images_met(state) {
        let turns = final_turns(state, goal);
        if turns.len() == 0 {
            Decomposition::PlanFound
        } else {
            Decomposition::TaskLists(seq![turns])
        }
    } else {
        let offered = image_alternatives(state, goal, ordered_keys(goal.have_image.dom()));
        if offered.len() > 0 {
            Decomposition::TaskLists(offered)
        } else {
            Decomposition::Failure
        }
    }
}

impl Decomposition {
    /// Whether no task of any task list is a turn from a direction to
    /// itself.
    pub open spec fn free_of_redundant_turns(self) -> bool {
        match self {
            Decomposition::TaskLists(lists) => forall|i: int|
                0 <= i < lists.len() ==> free_of_redundant_turns(#[trigger] lists[i]),
            _ => true,
        }
    }
}

/// The satellites that point elsewhere than the goal wants, each with the
/// direction that the goal wants.
pub fn pointing_needed(state: &SatelliteState, goal: &SatelliteGoals) -> (pending: Vec<
    (SatelliteEnum, SatelliteEnum),
>)
    ensures
        pending@ == pending_pointings(state@, goal@, goal.pointing.keys()),
        forall|i: int|
            0 <= i < pending@.len() ==> state@.pointing.contains_key((#[trigger] pending@[i]).0)
                && state@.pointing[pending@[i].0] != pending@[i].1,
{
    let n = goal.pointing.len();
    let ghost satellites = goal.pointing.keys();
    let mut pending: Vec<(SatelliteEnum, SatelliteEnum)> = Vec::new();
    let mut i: usize = 0;
    while i < n
        invariant
            n == satellites.len(),
            satellites == goal.pointing.keys(),
            i <= n,
            pending@ == pending_pointings(state@, goal@, satellites.take(i as int)),
            forall|k: int|
                0 <= k < pending@.len() ==> state@.pointing.contains_key(
                    (#[trigger] pending@[k]).0,
                ) && state@.pointing[pending@[k].0] != pending@[k].1,
        decreases n - i,
    {
        proof {
            let upto = satellites.take(i + 1);
            assert(upto.drop_last() =~= satellites.take(i as int));
        }
        let satellite = goal.pointing.key_at(i);
        let wanted = *goal.pointing.value_at(i);
        match state.pointing.get(&satellite) {
            Some(current) => {
                if *current != wanted {
                    pending.push((satellite, wanted));
                }
            },
            None => {},
        }
        i += 1;
    }
    assert(satellites.take(n as int) =~= satellites);
    pending
}

/// Offers a task list for each image that is still wanted, and the last
/// turns once none is.
pub fn schedule_all(state: &SatelliteState, goal: &SatelliteGoals) -> (result: MethodResult)
    ensures
        result@ == schedule_all_offer(state@, goal@),
        result@.free_of_redundant_turns(),
{
    let n = goal.have_image.len();
    let ghost directions = goal.have_image.keys();
    let mut offered: Vec<Vec<Task>> = Vec::new();
    let mut all_met = true;
    let mut i: usize = 0;
    while i < n
        invariant
            n == directions.len(),
            directions == goal.have_image.keys(),
            i <= n,
            task_lists(offered@) == image_alternatives(state@, goal@, directions.take(i as int)),
            all_met == (forall|j: int|
                0 <= j < i ==> goal@.image_met(state@, #[trigger] directions[j])),
            forall|k: int|
                0 <= k < offered@.len() ==> free_of_redundant_turns((#[trigger] offered@[k])@),
        decreases n - i,
    {
        proof {
            let upto = directions.take(i + 1);
            assert(upto.drop_last() =~= directions.take(i as int));
        }
        let direction = goal.have_image.key_at(i);
        let mode = *goal.have_image.value_at(i);
        let met = match state.have_image.get(&direction) {
            Some(taken) => *taken == mode,
            None => false,
        };
        if !met {
            all_met = false;
            match brute_force_instrument(state, &mode) {
                Some(instrument) => match brute_force_satellite(state, &instrument, &mode) {
                    Some(satellite) => match state.pointing.get(&satellite) {
                        Some(previous) => {
                            let mut tasks: Vec<Task> = Vec::new();
                            tasks.push(
                                Task::Method(
                                    SatelliteMethod::ScheduleOne(
                                        satellite,
                                        instrument,
                                        mode,
                                        direction,
                                        *previous,
                                    ),
                                ),
                            );
                            tasks.push(Task::Method(SatelliteMethod::ScheduleAll));
                            let ghost shown = tasks@;
                            offered.push(tasks);
                            proof {
                                assert(shown =~= image_tasks(state@, goal@, direction).unwrap());
                            }
                        },
                        None => {},
                    },
                    None => {},
                },
                None => {},
            }
        }
        i += 1;
    }
    proof {
        assert(directions.take(n as int) =~= directions);
        if all_met {
            assert forall|direction: SatelliteEnum| #[trigger]
                goal@.have_image.contains_key(direction) implies goal@.image_met(
                state@,
                direction,
            ) by {
            }
        } else {
            let j = choose|j: int| 0 <= j < n && !goal@.image_met(state@, #[trigger] directions[j]);
            assert(directions.contains(directions[j]));
        }
    }
    if all_met {
        let pending = pointing_needed(state, goal);
        let mut turns: Vec<Task> = Vec::new();
        let mut k: usize = 0;
        while k < pending.len()
            invariant
                k <= pending@.len(),
                turns@ == turns_for(state@, pending@.take(k as int)),
                forall|i: int|
                    0 <= i < pending@.len() ==> state@.pointing.contains_key(
                        (#[trigger] pending@[i]).0,
                    ) && state@.pointing[pending@[i].0] != pending@[i].1,
            decreases pending@.len() - k,
        {
            let (satellite, wanted) = pending[k];
            match state.pointing.get(&satellite) {
                Some(current) => {
                    turns.push(
                        Task::Operator(SatelliteOperator::TurnTo(satellite, wanted, *current)),
                    );
                },
                None => {},
            }
            k += 1;
        }
        assert(pending@.take(pending@.len() as int) =~= pending@);
        if turns.is_empty() {
            MethodResult::PlanFound
        } else {
            one_task_list(turns)
        }
    } else if offered.len() > 0 {
        MethodResult::TaskLists(offered)
    } else {
        MethodResult::Failure
    }
}

impl SatelliteMethod {
    /// What the method offers in `state` towards `goal`.
    pub open spec fn offer(self, state: StateView, goal: GoalView) -> Decomposition {
        match self {
            SatelliteMethod::ScheduleAll => schedule_all_offer(state, goal),
            SatelliteMethod::ScheduleOne(satellite, instrument, mode, new, previous) =>
                schedule_one_offer(state, satellite, instrument, mode, new, previous),
            SatelliteMethod::Switching(satellite, instrument) => Decomposition::TaskLists(
                seq![switching_tasks(state, satellite, instrument)],
            ),
        }
    }

    /// Splits the task into smaller ones.
    pub fn apply(&self, state: &SatelliteState, goal: &SatelliteGoals) -> (result: MethodResult)
        ensures
            result@ == self.offer(state@, goal@),
            result@.free_of_redundant_turns(),
    {
        match self {
            SatelliteMethod::ScheduleAll => schedule_all(state, goal),
            SatelliteMethod::ScheduleOne(
                satellite,
                instrument,
                mode,
                new_direction,
                previous_direction,
            ) => {
                schedule_one(
                    state,
                    *satellite,
                    *instrument,
                    *mode,
                    *new_direction,
                    *previous_direction,
                )
            },
            SatelliteMethod::Switching(satellite, instrument) => switching(
                state,
                *satellite,
                *instrument,
            ),
        }
    }
}

/// Whether the satellite that `ScheduleAll` picks for an image in `mode`
/// has a direction on record.
pub open spec fn carrier_has_pointing(state: StateView, mode: SatelliteEnum) -> bool {
    match state.instrument_for(mode) {
        None => true,
        Some(instrument) => match state.satellite_for(instrument, mode) {
            None => true,
            Some(satellite) => state.pointing.contains_key(satellite),
        },
    }
}

/// Whether `ScheduleAll` finds the pointing of every satellite that it
/// asks about: while images are wanted, of the satellite picked for each of
/// them; afterwards, of every satellite that the goal wants turned.
pub open spec fn schedule_all_finds_entries(state: StateView, goal: GoalView) -> bool {
    if goal.images_met(state) {
        forall|satellite: SatelliteEnum| #[trigger]
            goal.pointing.contains_key(satellite) ==> state.pointing.contains_key(satellite)
    } else {
        forall|direction: SatelliteEnum| #[trigger]
            goal.have_image.contains_key(direction) && !goal.image_met(state, direction)
                ==> carrier_has_pointing(state, goal.have_image[direction])
    }
}

/// Whether `ScheduleAll` finds the pointing of every satellite that it
/// asks about.
pub fn schedule_all_lookups_present(state: &SatelliteState, goal: &SatelliteGoals) -> (present:
    bool)
    ensures
        present == schedule_all_finds_entries(state@, goal@),
{
    if goal.images_met_in(state) {
        let n = goal.pointing.len();
        let ghost satellites = goal.pointing.keys();
        let mut i: usize = 0;
        while i < n
            invariant
                n == satellites.len(),
                satellites == goal.pointing.keys(),
                lists(satellites, goal@.pointing.dom()),
                goal@.images_met(state@),
                i <= n,
                forall|j: int|
                    0 <= j < i ==> state@.pointing.contains_key(#[trigger] satellites[j]),
            decreases n - i,
        {
            let satellite = goal.pointing.key_at(i);
            if !state.pointing.contains_key(&satellite) {
                return false;
            }
            i += 1;
        }
        true
    } else {
        let n = goal.have_image.len();
        let ghost directions = goal.have_image.keys();
        let mut i: usize = 0;
        while i < n
            invariant
                n == directions.len(),
                directions == goal.have_image.keys(),
                lists(directions, goal@.have_image.dom()),
                !goal@.images_met(state@),
                i <= n,
                forall|j: int|
                    0 <= j < i && !goal@.image_met(state@, #[trigger] directions[j])
                        ==> carrier_has_pointing(state@, goal@.have_image[directions[j]]),
            decreases n - i,
        {
            let direction = goal.have_image.key_at(i);
            let mode = *goal.have_image.value_at(i);
            let met = match state.have_image.get(&direction) {
                Some(taken) => *taken == mode,
                None => false,
            };
            if !met {
                let found = match brute_force_instrument(state, &mode) {
                    Some(instrument) => match brute_force_satellite(state, &instrument, &mode) {
                        Some(satellite) => state.pointing.contains_key(&satellite),
                        None => true,
                    },
                    None => true,
                };
                if !found {
                    return false;
                }
            }
            i += 1;
        }
        true
    }
}

impl SatelliteMethod {
    /// Whether the method finds in `state` every entry that it looks up
    /// without a fallback: `ScheduleOne` the power of its satellite and,
    /// for a turn, the calibration target of its instrument; `ScheduleAll`
    /// the pointing of the satellites it asks about. A state that lacks one
    /// of them is malformed.
    pub open spec fn finds_entries_in(self, state: StateView, goal: GoalView) -> bool {
        match self {
            SatelliteMethod::ScheduleAll => schedule_all_finds_entries(state, goal),
            SatelliteMethod::ScheduleOne(satellite, instrument, _, new, _) => {
                &&& state.power_avail.contains_key(satellite)
                &&& state.points_at(satellite, new) || state.calibration_target.contains_key(
                    instrument,
                )
            },
            SatelliteMethod::Switching(_, _) => true,
        }
    }

    /// Whether the method finds in `state` every entry that it looks up
    /// without a fallback.
    pub fn lookups_present(&self, state: &SatelliteState, goal: &SatelliteGoals) -> (present: bool)
        ensures
            present == self.finds_entries_in(state@, goal@),
    {
        match self {
            SatelliteMethod::ScheduleAll => schedule_all_lookups_present(state, goal),
            SatelliteMethod::ScheduleOne(satellite, instrument, _, new_direction, _) => {
                state.power_avail.contains_key(satellite) && (state.pointing_helper(
                    satellite,
                    new_direction,
                ) || state.calibration_target.contains_key(instrument))
            },
            SatelliteMethod::Switching(_, _) => true,
        }
    }
}

/// The keys of `wanted` under which `actual` does not hold what `wanted`
/// holds.
pub open spec fn differing(
    wanted: Map<SatelliteEnum, SatelliteEnum>,
    actual: Map<SatelliteEnum, SatelliteEnum>,
) -> Set<SatelliteEnum> {
    Set::new(
        |key: SatelliteEnum|
            wanted.contains_key(key) && !(actual.contains_key(key) && actual[key] == wanted[key]),
    )
}

impl GoalView {
    /// How far the state is from the goal: the number of wanted images
    /// that it lacks plus the number of satellites that point elsewhere
    /// than wanted.
    pub open spec fn distance(self, state: StateView) -> nat {
        differing(self.have_image, state.have_image).len() + differing(
            self.pointing,
            state.pointing,
        ).len()
    }
}

/// The number of keys of `wanted` under which `actual` does not hold what
/// `wanted` holds.
pub fn count_differing(
    wanted: &Table<SatelliteEnum, SatelliteEnum>,
    actual: &Table<SatelliteEnum, SatelliteEnum>,
) -> (count: usize)
    ensures
        count == differing(wanted@, actual@).len(),
        count <= wanted@.len(),
{
    let n = wanted.len();
    let ghost keys = wanted.keys();
    let ghost mut seen: Set<SatelliteEnum> = Set::empty();
    let mut count: usize = 0;
    let mut i: usize = 0;
    while i < n
        invariant
            n == keys.len(),
            keys == wanted.keys(),
            lists(keys, wanted@.dom()),
            i <= n,
            count <= i,
            seen.finite(),
            count == seen.len(),
            forall|key: SatelliteEnum|
                seen.contains(key) <==> differing(wanted@, actual@).contains(key) && keys.take(
                    i as int,
                ).contains(key),
        decreases n - i,
    {
        let key = wanted.key_at(i);
        let value = wanted.value_at(i);
        let same = match actual.get(&key) {
            Some(held) => *held == *value,
            None => false,
        };
        proof {
            let upto = keys.take(i as int);
            let next = keys.take(i + 1);
            assert forall|other: SatelliteEnum| next.contains(other) <==> upto.contains(other)
                || other == key by {
                if upto.contains(other) {
                    let j = choose|j: int| 0 <= j < upto.len() && upto[j] == other;
                    assert(next[j] == other);
                }
                if other == key {
                    assert(next[i as int] == other);
                }
            }
            if !same {
                seen = seen.insert(key);
            }
        }
        if !same {
            count += 1;
        }
        i += 1;
    }
    proof {
        assert(keys.take(n as int) =~= keys);
        assert(seen =~= differing(wanted@, actual@));
    }
    count
}

impl SatelliteGoals {
    /// The tasks with which planning starts.
    pub fn starting_tasks(&self) -> (tasks: Vec<Task>)
        ensures
            tasks@ == seq![Task::Method(SatelliteMethod::ScheduleAll)],
    {
        let mut tasks: Vec<Task> = Vec::new();
        tasks.push(Task::Method(SatelliteMethod::ScheduleAll));
        tasks
    }

    /// Whether the state meets the goal. The answer depends on the images
    /// and the pointing of the state alone, and asking changes neither.
    pub fn accepts(&self, state: &SatelliteState) -> (accepted: bool)
        ensures
            accepted == self@.satisfied_by(state@),
    {
        self.all_met_in(state)
    }

    /// How far the state is from the goal, as a quantity.
    pub fn distance_from(&self, state: &SatelliteState) -> (distance: Quantity)
        requires
            self@.have_image.len() + self@.pointing.len() < COUNT_LIMIT,
        ensures
            distance.bits == self@.distance(state@) * UNITS_PER_ONE,
    {
        let unvisited = count_differing(&self.have_image, &state.have_image);
        let num_turns = count_differing(&self.pointing, &state.pointing);
        let total: u64 = unvisited as u64 + num_turns as u64;
        match Quantity::from_count(total) {
            Some(distance) => distance,
            None => Quantity::zero(),
        }
    }

    /// How far the state is from the goal, as a quantity, or nothing if
    /// the goal has more entries than a quantity can count.
    pub fn checked_distance_from(&self, state: &SatelliteState) -> (distance: Option<Quantity>)
        ensures
            self@.have_image.len() + self@.pointing.len() < COUNT_LIMIT ==> distance.is_some()
                && distance.unwrap().bits == self@.distance(state@) * UNITS_PER_ONE,
            self@.have_image.len() + self@.pointing.len() >= COUNT_LIMIT ==> distance.is_none(),
    {
        let entries: u128 = self.have_image.len() as u128 + self.pointing.len() as u128;
        if entries < COUNT_LIMIT as u128 {
            Some(self.distance_from(state))
        } else {
            None
        }
    }
}

/// Whether the state holds every image that the goal wants.
pub fn is_satellite_done(state: SatelliteState, goal: &SatelliteGoals) -> (done: bool)
    ensures
        done == goal@.images_met(state@),
{
    goal.images_met_in(&state)
}

impl SatelliteStatus {
    /// `Done` if the state holds every image that the goal wants, and
    /// otherwise the task at hand.
    pub fn new(
        identifier: u32,
        state: SatelliteState,
        satellite: SatelliteEnum,
        instrument: SatelliteEnum,
        mode: SatelliteEnum,
        new_direction: SatelliteEnum,
        previous_direction: SatelliteEnum,
        goal: SatelliteGoals,
    ) -> (status: SatelliteStatus)
        ensures
            status == if goal@.images_met(state@) {
                SatelliteStatus::Done
            } else {
                SatelliteStatus::NotDone(
                    identifier,
                    satellite,
                    instrument,
                    mode,
                    new_direction,
                    previous_direction,
                )
            },
    {
        if is_satellite_done(state, &goal) {
            SatelliteStatus::Done
        } else {
            SatelliteStatus::NotDone(
                identifier,
                satellite,
                instrument,
                mode,
                new_direction,
                previous_direction,
            )
        }
    }
}

} // verus!
