//! How deep the search has to go.
//!
//! Every task has a weight: the number of tasks that the search works
//! through until it is done with it. A task list that the planner's own
//! methods lead to ends with at most one image that is still wanted and then
//! `ScheduleAll`, and each image taken leaves one less to take. So the weight
//! of such a list is bounded, and a search that may go as deep as that bound
//! finds what a search of any greater depth finds.
use crate::methods::{
    differing, final_turns, image_alternatives, pending_pointings, switch_off_first,
    switching_tasks, turn_if_needed, Decomposition, SatelliteMethod, Task,
};
use crate::operators::{GoalView, SatelliteEnum, SatelliteOperator, StateView};
use crate::planner::{search, search_each};
use crate::table::{lists, ordered_keys};
use vstd::prelude::*;

verus! {

impl GoalView {
    /// Whether the goal wants an image of `direction` in `mode` that the
    /// state lacks.
    pub open spec fn wants(self, state: StateView, direction: SatelliteEnum, mode: SatelliteEnum) -> bool {
        &&& self.have_image.contains_key(direction)
        &&& self.have_image[direction] == mode
        &&& !self.image_met(state, direction)
    }

    /// The number of wanted images that the state lacks.
    pub open spec fn missing_images(self, state: StateView) -> nat {
        differing(self.have_image, state.have_image).len()
    }

    /// Whether the goal has finitely many entries, listed in order.
    pub open spec fn is_listed(self) -> bool {
        &&& self.have_image.dom().finite()
        &&& self.pointing.dom().finite()
        &&& lists(ordered_keys(self.have_image.dom()), self.have_image.dom())
        &&& lists(ordered_keys(self.pointing.dom()), self.pointing.dom())
    }

    /// The weight of `ScheduleAll` while `images` wanted images are
    /// missing: ten tasks for each of them, one for each satellite to turn
    /// in the end, and one more.
    pub open spec fn closing_weight(self, images: nat) -> nat {
        10 * images + self.pointing.dom().len() + 1
    }

    /// A depth at which the search for a plan towards this goal is
    /// complete.
    pub open spec fn sufficient_depth(self) -> nat {
        self.closing_weight(self.have_image.dom().len())
    }
}

impl Task {
    /// Whether the task is a step that takes no image, or the settling of
    /// the power.
    pub open spec fn is_plain(self) -> bool {
        match self {
            Task::Operator(SatelliteOperator::TakeImage(_, _, _, _)) => false,
            Task::Operator(_) => true,
            Task::Method(SatelliteMethod::Switching(_, _)) => true,
            Task::Method(_) => false,
        }
    }

    /// Whether the task takes, or schedules, an image that the goal wants
    /// and the state lacks.
    pub open spec fn is_wanted_image(self, state: StateView, goal: GoalView) -> bool {
        match self {
            Task::Operator(SatelliteOperator::TakeImage(_, direction, _, mode)) => goal.wants(
                state,
                direction,
                mode,
            ),
            Task::Method(SatelliteMethod::ScheduleOne(_, _, mode, direction, _)) => goal.wants(
                state,
                direction,
                mode,
            ),
            _ => false,
        }
    }

    /// The weight of a plain task: one for a step, and three for the
    /// settling of the power, which brings at most two steps.
    pub open spec fn weight(self) -> nat {
        match self {
            Task::Method(SatelliteMethod::Switching(_, _)) => 3,
            _ => 1,
        }
    }
}

/// Whether every task of the list is plain.
pub open spec fn all_plain(tasks: Seq<Task>) -> bool {
    forall|i: int| 0 <= i < tasks.len() ==> (#[trigger] tasks[i]).is_plain()
}

/// The sum of the weights of the tasks.
pub open spec fn total_weight(tasks: Seq<Task>) -> nat
    decreases tasks.len(),
{
    if tasks.len() == 0 {
        0
    } else {
        tasks[0].weight() + total_weight(tasks.skip(1))
    }
}

/// Whether the task list is one that the planner's own methods lead to:
/// plain tasks, and then nothing, or `ScheduleAll`, or a wanted image and
/// `ScheduleAll`.
pub open spec fn on_track(tasks: Seq<Task>, state: StateView, goal: GoalView) -> bool
    decreases tasks.len(),
{
    if tasks.len() == 0 {
        true
    } else if tasks[0].is_plain() {
        on_track(tasks.skip(1), state, goal)
    } else if tasks[0] == Task::Method(SatelliteMethod::ScheduleAll) {
        tasks.len() == 1
    } else {
        &&& tasks[0].is_wanted_image(state, goal)
        &&& tasks.len() == 2
        &&& tasks[1] == Task::Method(SatelliteMethod::ScheduleAll)
    }
}

/// The number of tasks that the search works through, at most, on any one
/// path from the task list `tasks`, which is on track.
pub open spec fn reach(tasks: Seq<Task>, state: StateView, goal: GoalView) -> nat
    decreases tasks.len(),
{
    if tasks.len() == 0 {
        0
    } else if tasks[0].is_plain() {
        tasks[0].weight() + reach(tasks.skip(1), state, goal)
    } else {
        match tasks[0] {
            Task::Method(SatelliteMethod::ScheduleAll) => goal.closing_weight(
                goal.missing_images(state),
            ),
            Task::Method(SatelliteMethod::ScheduleOne(_, _, _, _, _)) => 9 + goal.closing_weight(
                (goal.missing_images(state) - 1) as nat,
            ),
            _ => 1 + goal.closing_weight((goal.missing_images(state) - 1) as nat),
        }
    }
}

/// The weight of a list with one more task at its end.
pub proof fn lemma_total_weight_push(tasks: Seq<Task>, last: Task)
    ensures
        total_weight(tasks.push(last)) == total_weight(tasks) + last.weight(),
    decreases tasks.len(),
{
    let all = tasks.push(last);
    if tasks.len() == 0 {
        assert(total_weight(all.skip(1)) == 0);
    } else {
        assert(all.skip(1) =~= tasks.skip(1).push(last));
        lemma_total_weight_push(tasks.skip(1), last);
    }
}

/// The weight of two lists joined.
pub proof fn lemma_total_weight_add(front: Seq<Task>, back: Seq<Task>)
    ensures
        total_weight(front + back) == total_weight(front) + total_weight(back),
    decreases front.len(),
{
    if front.len() > 0 {
        assert((front + back).skip(1) =~= front.skip(1) + back);
        lemma_total_weight_add(front.skip(1), back);
    }
}

/// A list of steps weighs as much as it is long.
pub proof fn lemma_total_weight_of_steps(tasks: Seq<Task>)
    requires
        forall|i: int| 0 <= i < tasks.len() ==> (#[trigger] tasks[i]) is Operator,
    ensures
        total_weight(tasks) == tasks.len(),
    decreases tasks.len(),
{
    if tasks.len() > 0 {
        let rest = tasks.skip(1);
        lemma_total_weight_of_steps(rest);
    }
}

/// Whether a task list is on track, and how far it reaches, depends on the
/// images of the state alone.
pub proof fn lemma_track_depends_on_images(
    tasks: Seq<Task>,
    first: StateView,
    second: StateView,
    goal: GoalView,
)
    requires
        first.have_image == second.have_image,
    ensures
        on_track(tasks, first, goal) == on_track(tasks, second, goal),
        reach(tasks, first, goal) == reach(tasks, second, goal),
    decreases tasks.len(),
{
    if tasks.len() > 0 {
        lemma_track_depends_on_images(tasks.skip(1), first, second, goal);
    }
}

/// Plain tasks before a list on track leave it on track and add their
/// weight to its reach.
pub proof fn lemma_plain_tasks_first(
    front: Seq<Task>,
    tasks: Seq<Task>,
    state: StateView,
    goal: GoalView,
)
    requires
        all_plain(front),
        on_track(tasks, state, goal),
    ensures
        on_track(front + tasks, state, goal),
        reach(front + tasks, state, goal) == total_weight(front) + reach(tasks, state, goal),
    decreases front.len(),
{
    if front.len() > 0 {
        let rest = front.skip(1);
        assert((front + tasks).skip(1) =~= rest + tasks);
        lemma_plain_tasks_first(rest, tasks, state, goal);
    }
}

/// A wanted image that is taken leaves one image less to take.
pub proof fn lemma_image_taken(
    state: StateView,
    goal: GoalView,
    satellite: SatelliteEnum,
    direction: SatelliteEnum,
    mode: SatelliteEnum,
)
    requires
        goal.have_image.dom().finite(),
        goal.wants(state, direction, mode),
    ensures
        goal.missing_images(state) >= 1,
        goal.missing_images(state.after_take_image(satellite, direction, mode))
            == goal.missing_images(state) - 1,
{
    let before = differing(goal.have_image, state.have_image);
    let after = differing(
        goal.have_image,
        state.after_take_image(satellite, direction, mode).have_image,
    );
    vstd::set_lib::lemma_len_subset(before, goal.have_image.dom());
    assert(after =~= before.remove(direction));
}

/// While a wanted image is missing, at least one image is missing.
pub proof fn lemma_wanted_image_is_missing(
    state: StateView,
    goal: GoalView,
    direction: SatelliteEnum,
    mode: SatelliteEnum,
)
    requires
        goal.have_image.dom().finite(),
        goal.wants(state, direction, mode),
    ensures
        goal.missing_images(state) >= 1,
{
    let missing = differing(goal.have_image, state.have_image);
    vstd::set_lib::lemma_len_subset(missing, goal.have_image.dom());
    assert(missing.contains(direction));
}

/// No more images are missing than the goal wants.
pub proof fn lemma_missing_images_are_wanted(state: StateView, goal: GoalView)
    requires
        goal.have_image.dom().finite(),
    ensures
        goal.missing_images(state) <= goal.have_image.dom().len(),
{
    let missing = differing(goal.have_image, state.have_image);
    vstd::set_lib::lemma_len_subset(missing, goal.have_image.dom());
}

/// Whether the task list schedules one wanted image and then everything
/// else.
pub open spec fn schedules_wanted_image(tasks: Seq<Task>, state: StateView, goal: GoalView) -> bool {
    &&& tasks.len() == 2
    &&& tasks[0] is Method
    &&& tasks[0].is_wanted_image(state, goal)
    &&& tasks[1] == Task::Method(SatelliteMethod::ScheduleAll)
}

/// Each task list that `ScheduleAll` offers for a missing image schedules
/// a wanted image.
pub proof fn lemma_image_alternatives_schedule_wanted_images(
    state: StateView,
    goal: GoalView,
    directions: Seq<SatelliteEnum>,
)
    requires
        forall|i: int|
            0 <= i < directions.len() ==> goal.have_image.contains_key(#[trigger] directions[i]),
    ensures
        forall|k: int|
            0 <= k < image_alternatives(state, goal, directions).len() ==> schedules_wanted_image(
                #[trigger] image_alternatives(state, goal, directions)[k],
                state,
                goal,
            ),
    decreases directions.len(),
{
    if directions.len() > 0 {
        let front = directions.drop_last();
        lemma_image_alternatives_schedule_wanted_images(state, goal, front);
        assert(image_alternatives(state, goal, front).len() <= image_alternatives(
            state,
            goal,
            directions,
        ).len());
    }
}

/// No more satellites are left to turn than the goal names.
pub proof fn lemma_pending_pointings_are_few(
    state: StateView,
    goal: GoalView,
    satellites: Seq<SatelliteEnum>,
)
    ensures
        pending_pointings(state, goal, satellites).len() <= satellites.len(),
    decreases satellites.len(),
{
    if satellites.len() > 0 {
        lemma_pending_pointings_are_few(state, goal, satellites.drop_last());
    }
}

/// The task lists that a method at the head of a list on track offers
/// stay on track, each followed by the rest of the list, and reach less
/// far than the list itself.
pub proof fn lemma_offers_stay_on_track(
    tasks: Seq<Task>,
    method: SatelliteMethod,
    offered: Seq<Seq<Task>>,
    state: StateView,
    goal: GoalView,
)
    requires
        goal.is_listed(),
        tasks.len() > 0,
        tasks[0] == Task::Method(method),
        on_track(tasks, state, goal),
        method.offer(state, goal) == Decomposition::TaskLists(offered),
    ensures
        forall|i: int|
            0 <= i < offered.len() ==> on_track(#[trigger] offered[i] + tasks.skip(1), state, goal)
                && reach(offered[i] + tasks.skip(1), state, goal) < reach(tasks, state, goal),
{
    let rest = tasks.skip(1);
    let ahead = Task::Method(SatelliteMethod::ScheduleAll);
    match method {
        SatelliteMethod::Switching(satellite, instrument) => {
            let steps = switching_tasks(state, satellite, instrument);
            assert forall|i: int| 0 <= i < steps.len() implies (#[trigger] steps[i]) is Operator by {}
            lemma_total_weight_of_steps(steps);
            lemma_plain_tasks_first(steps, rest, state, goal);
        },
        SatelliteMethod::ScheduleOne(satellite, instrument, mode, new, previous) => {
            let image = Task::Operator(SatelliteOperator::TakeImage(satellite, new, instrument, mode));
            let tail = seq![image, ahead];
            let settled = !state.power_avail[satellite] || state.power_on.len() == 0;
            let other = if settled {
                None
            } else {
                state.powered_instrument(satellite)
            };
            let lead = switch_off_first(other, satellite);
            let switch = Task::Method(SatelliteMethod::Switching(satellite, instrument));
            if state.points_at(satellite, new) {
                let front = lead + seq![
                    switch,
                    Task::Operator(SatelliteOperator::Calibrate(satellite, instrument, new)),
                ];
                assert(offered[0] + rest =~= front + tail);
                lemma_total_weight_add(
                    lead,
                    seq![
                        switch,
                        Task::Operator(SatelliteOperator::Calibrate(satellite, instrument, new)),
                    ],
                );
                lemma_weight_of_two(
                    switch,
                    Task::Operator(SatelliteOperator::Calibrate(satellite, instrument, new)),
                );
                lemma_weight_of_lead(other, satellite);
                lemma_plain_tasks_first(front, tail, state, goal);
            } else {
                let target = state.calibration_target[instrument];
                let calibrate = Task::Operator(
                    SatelliteOperator::Calibrate(satellite, instrument, target),
                );
                let first = turn_if_needed(satellite, target, previous);
                let second = turn_if_needed(satellite, new, target);
                let front = lead + first + seq![switch, calibrate] + second;
                assert(offered[0] + rest =~= front + tail);
                lemma_weight_of_lead(other, satellite);
                lemma_weight_of_turn(satellite, target, previous);
                lemma_weight_of_turn(satellite, new, target);
                lemma_weight_of_two(switch, calibrate);
                lemma_total_weight_add(lead, first);
                lemma_total_weight_add(lead + first, seq![switch, calibrate]);
                lemma_total_weight_add(lead + first + seq![switch, calibrate], second);
                lemma_plain_tasks_first(front, tail, state, goal);
            }
        },
        SatelliteMethod::ScheduleAll => {
            if goal.images_met(state) {
                let satellites = ordered_keys(goal.pointing.dom());
                let turns = final_turns(state, goal);
                assert forall|i: int| 0 <= i < turns.len() implies (#[trigger] turns[i]) is Operator by {}
                lemma_total_weight_of_steps(turns);
                lemma_pending_pointings_are_few(state, goal, satellites);
                crate::table::lemma_listing_has_the_size(satellites, goal.pointing.dom());
                lemma_plain_tasks_first(turns, Seq::<Task>::empty(), state, goal);
            } else {
                let directions = ordered_keys(goal.have_image.dom());
                lemma_image_alternatives_schedule_wanted_images(state, goal, directions);
                assert forall|i: int| 0 <= i < offered.len() implies on_track(
                    #[trigger] offered[i] + rest,
                    state,
                    goal,
                ) && reach(offered[i] + rest, state, goal) < reach(tasks, state, goal) by {
                    let tried = offered[i];
                    match tried[0] {
                        Task::Method(SatelliteMethod::ScheduleOne(_, _, mode, direction, _)) => {
                            lemma_wanted_image_is_missing(state, goal, direction, mode);
                        },
                        _ => {},
                    }
                }
            }
        },
    }
}

/// The weight of two tasks.
pub proof fn lemma_weight_of_two(first: Task, second: Task)
    ensures
        total_weight(seq![first, second]) == first.weight() + second.weight(),
{
    assert(seq![first, second] =~= Seq::<Task>::empty().push(first).push(second));
    lemma_total_weight_push(Seq::<Task>::empty().push(first), second);
    lemma_total_weight_push(Seq::<Task>::empty(), first);
}

/// A turn that is made only if needed weighs at most one.
pub proof fn lemma_weight_of_turn(satellite: SatelliteEnum, new: SatelliteEnum, previous: SatelliteEnum)
    ensures
        total_weight(turn_if_needed(satellite, new, previous)) <= 1,
        all_plain(turn_if_needed(satellite, new, previous)),
{
    let turn = turn_if_needed(satellite, new, previous);
    if new != previous {
        lemma_total_weight_push(Seq::<Task>::empty(), turn[0]);
    }
}

/// The step that switches an instrument off first weighs at most one.
pub proof fn lemma_weight_of_lead(other: Option<SatelliteEnum>, satellite: SatelliteEnum)
    ensures
        total_weight(switch_off_first(other, satellite)) <= 1,
        all_plain(switch_off_first(other, satellite)),
{
    let lead = switch_off_first(other, satellite);
    if other.is_some() {
        lemma_total_weight_push(Seq::<Task>::empty(), lead[0]);
    }
}

/// A search that may go as deep as a task list on track reaches finds what
/// any deeper search finds.
pub proof fn lemma_deeper_search_finds_the_same(
    tasks: Seq<Task>,
    state: StateView,
    goal: GoalView,
    depth: nat,
    deeper: nat,
)
    requires
        goal.is_listed(),
        on_track(tasks, state, goal),
        reach(tasks, state, goal) <= depth <= deeper,
    ensures
        search(tasks, state, goal, depth) == search(tasks, state, goal, deeper),
    decreases depth, 0nat, 0nat,
{
    if tasks.len() > 0 {
        let rest = tasks.skip(1);
        let less = (depth - 1) as nat;
        let more = (deeper - 1) as nat;
        match tasks[0] {
            Task::Operator(step) => {
                if step.finds_entries_in(state) && step.enabled_in(state) {
                    let next = step.effect_on(state);
                    match step {
                        SatelliteOperator::TakeImage(satellite, direction, _, mode) => {
                            lemma_image_taken(state, goal, satellite, direction, mode);
                        },
                        SatelliteOperator::TurnTo(_, _, _) => {
                            lemma_track_depends_on_images(rest, state, next, goal);
                        },
                        SatelliteOperator::SwitchOn(_, _) => {
                            lemma_track_depends_on_images(rest, state, next, goal);
                        },
                        SatelliteOperator::SwitchOff(_, _) => {
                            lemma_track_depends_on_images(rest, state, next, goal);
                        },
                        SatelliteOperator::Calibrate(_, _, _) => {
                            lemma_track_depends_on_images(rest, state, next, goal);
                        },
                    }
                    lemma_deeper_search_finds_the_same(rest, next, goal, less, more);
                }
            },
            Task::Method(method) => {
                if method.finds_entries_in(state, goal) {
                    match method.offer(state, goal) {
                        Decomposition::Failure => {},
                        Decomposition::PlanFound => {
                            lemma_deeper_search_finds_the_same(rest, state, goal, less, more);
                        },
                        Decomposition::TaskLists(offered) => {
                            lemma_offers_stay_on_track(tasks, method, offered, state, goal);
                            lemma_deeper_search_of_each_finds_the_same(
                                offered,
                                rest,
                                state,
                                goal,
                                less,
                                more,
                            );
                        },
                    }
                }
            },
        }
    }
}

/// A search over several task lists that may go as deep as each of them
/// reaches finds what any deeper search finds.
pub proof fn lemma_deeper_search_of_each_finds_the_same(
    offered: Seq<Seq<Task>>,
    rest: Seq<Task>,
    state: StateView,
    goal: GoalView,
    depth: nat,
    deeper: nat,
)
    requires
        goal.is_listed(),
        depth <= deeper,
        forall|i: int|
            0 <= i < offered.len() ==> on_track(#[trigger] offered[i] + rest, state, goal) && reach(
                offered[i] + rest,
                state,
                goal,
            ) <= depth,
    ensures
        search_each(offered, rest, state, goal, depth) == search_each(
            offered,
            rest,
            state,
            goal,
            deeper,
        ),
    decreases depth, 1nat, offered.len(),
{
    if offered.len() > 0 {
        let later = offered.skip(1);
        lemma_deeper_search_finds_the_same(offered[0] + rest, state, goal, depth, deeper);
        lemma_deeper_search_of_each_finds_the_same(later, rest, state, goal, depth, deeper);
    }
}

/// The search for a plan from the task to schedule everything is complete
/// at the sufficient depth of the goal: no deeper search finds anything
/// else.
pub proof fn lemma_sufficient_depth_suffices(state: StateView, goal: GoalView, deeper: nat)
    requires
        goal.is_listed(),
        deeper >= goal.sufficient_depth(),
    ensures
        search(
            seq![Task::Method(SatelliteMethod::ScheduleAll)],
            state,
            goal,
            goal.sufficient_depth(),
        ) == search(seq![Task::Method(SatelliteMethod::ScheduleAll)], state, goal, deeper),
{
    let tasks = seq![Task::Method(SatelliteMethod::ScheduleAll)];
    lemma_missing_images_are_wanted(state, goal);
    lemma_deeper_search_finds_the_same(tasks, state, goal, goal.sufficient_depth(), deeper);
}

} // verus!
