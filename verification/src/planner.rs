//! The search for a plan.
//!
//! The planner works through a task list from its head. A step is applied
//! to the state; a method is replaced by each of the task lists it offers,
//! one after the other, until one of them leads to a plan. Every task list
//! that is tried works on a state of its own, so that a path that fails
//! leaves no trace on the next.
use crate::methods::{task_lists, Decomposition, MethodResult, SatelliteMethod, Task};
use crate::operators::{
    run, valid_plan, GoalView, SatelliteEnum, SatelliteGoals, SatelliteOperator, SatelliteState,
    StateView,
};
use vstd::prelude::*;

verus! {

/// Why planning ended without a plan.
#[derive(Clone, Copy, Debug, PartialEq, Eq, Structural)]
pub enum PlanningFailure {
    /// Every path was tried, as deep as the search goes, and none led to a
    /// state that meets the goal.
    NoPlanFound,
    /// A step or a method looked up an entry that the state must have and
    /// does not have: the state is malformed.
    DomainInconsistency,
}

/// What a search ends with: a plan, or the reason why there is none.
pub type Outcome = Result<Seq<SatelliteOperator<SatelliteEnum>>, PlanningFailure>;

/// What the search for a plan ends with, when it starts in `state` with
/// `tasks` to do and may go `depth` tasks deep.
///
/// With nothing left to do, the search ends: with the empty plan if the
/// state meets the goal, and without a plan if not. A step at the head is
/// applied, and the search goes on with the rest; if it cannot be applied,
/// this path has failed. A method at the head is replaced by what it
/// offers. A step or a method that misses an entry ends the whole search.
pub open spec fn search(tasks: Seq<Task>, state: StateView, goal: GoalView, depth: nat) -> Outcome
    decreases depth, 0nat, 0nat,
{
    if tasks.len() == 0 {
        if goal.satisfied_by(state) {
            Ok(Seq::empty())
        } else {
            Err(PlanningFailure::NoPlanFound)
        }
    } else if depth == 0 {
        Err(PlanningFailure::NoPlanFound)
    } else {
        let rest = tasks.skip(1);
        match tasks[0] {
            Task::Operator(step) => {
                if !step.finds_entries_in(state) {
                    Err(PlanningFailure::DomainInconsistency)
                } else if !step.enabled_in(state) {
                    Err(PlanningFailure::NoPlanFound)
                } else {
                    match search(rest, step.effect_on(state), goal, (depth - 1) as nat) {
                        Ok(plan) => Ok(seq![step] + plan),
                        Err(failure) => Err(failure),
                    }
                }
            },
            Task::Method(method) => {
                if !method.finds_entries_in(state, goal) {
                    Err(PlanningFailure::DomainInconsistency)
                } else {
                    match method.offer(state, goal) {
                        Decomposition::Failure => Err(PlanningFailure::NoPlanFound),
                        Decomposition::PlanFound => search(rest, state, goal, (depth - 1) as nat),
                        Decomposition::TaskLists(offered) => search_each(
                            offered,
                            rest,
                            state,
                            goal,
                            (depth - 1) as nat,
                        ),
                    }
                }
            },
        }
    }
}

/// What the search ends with when each of the task lists `offered` is
/// tried in turn, each followed by `rest` and each from `state`: the plan
/// of the first that leads to one. A malformed state ends the search at
/// the task list that meets it.
pub open spec fn search_each(
    offered: Seq<Seq<Task>>,
    rest: Seq<Task>,
    state: StateView,
    goal: GoalView,
    depth: nat,
) -> Outcome
    decreases depth, 1nat, offered.len(),
{
    if offered.len() == 0 {
        Err(PlanningFailure::NoPlanFound)
    } else {
        match search(offered[0] + rest, state, goal, depth) {
            Err(PlanningFailure::NoPlanFound) => search_each(
                offered.skip(1),
                rest,
                state,
                goal,
                depth,
            ),
            ended => ended,
        }
    }
}

/// Whether no step of the plan is a turn from a direction to itself.
pub open spec fn makes_no_redundant_turn(plan: Seq<SatelliteOperator<SatelliteEnum>>) -> bool {
    forall|i: int| 0 <= i < plan.len() ==> !Task::Operator(#[trigger] plan[i]).is_redundant_turn()
}

/// A plan whose steps can all be applied makes no turn from a direction to
/// itself.
pub proof fn lemma_applicable_plan_makes_no_redundant_turn(
    plan: Seq<SatelliteOperator<SatelliteEnum>>,
    state: StateView,
)
    requires
        run(plan, state).is_some(),
    ensures
        makes_no_redundant_turn(plan),
    decreases plan.len(),
{
    if plan.len() > 0 {
        let rest = plan.skip(1);
        lemma_applicable_plan_makes_no_redundant_turn(rest, plan[0].effect_on(state));
        assert forall|i: int| 0 <= i < plan.len() implies !Task::Operator(
            #[trigger] plan[i],
        ).is_redundant_turn() by {
            if i > 0 {
                assert(rest[i - 1] == plan[i]);
            }
        }
    }
}

/// Every plan that the search ends with is valid: its steps can be applied
/// one after the other from the state in which the search started, and
/// they lead to a state that meets the goal.
pub proof fn lemma_search_finds_valid_plans(
    tasks: Seq<Task>,
    state: StateView,
    goal: GoalView,
    depth: nat,
)
    ensures
        search(tasks, state, goal, depth) matches Ok(plan) ==> valid_plan(plan, state, goal),
    decreases depth, 0nat, 0nat,
{
    if tasks.len() > 0 && depth > 0 {
        let rest = tasks.skip(1);
        let less = (depth - 1) as nat;
        match tasks[0] {
            Task::Operator(step) => {
                if step.finds_entries_in(state) && step.enabled_in(state) {
                    let next = step.effect_on(state);
                    lemma_search_finds_valid_plans(rest, next, goal, less);
                    match search(rest, next, goal, less) {
                        Ok(plan) => {
                            let whole = seq![step] + plan;
                            assert(whole.skip(1) =~= plan);
                        },
                        Err(_) => {},
                    }
                }
            },
            Task::Method(method) => {
                if method.finds_entries_in(state, goal) {
                    match method.offer(state, goal) {
                        Decomposition::Failure => {},
                        Decomposition::PlanFound => {
                            lemma_search_finds_valid_plans(rest, state, goal, less);
                        },
                        Decomposition::TaskLists(offered) => {
                            lemma_search_each_finds_valid_plans(offered, rest, state, goal, less);
                        },
                    }
                }
            },
        }
    }
}

/// Every plan that a search over several task lists ends with is valid.
pub proof fn lemma_search_each_finds_valid_plans(
    offered: Seq<Seq<Task>>,
    rest: Seq<Task>,
    state: StateView,
    goal: GoalView,
    depth: nat,
)
    ensures
        search_each(offered, rest, state, goal, depth) matches Ok(plan) ==> valid_plan(
            plan,
            state,
            goal,
        ),
    decreases depth, 1nat, offered.len(),
{
    if offered.len() > 0 {
        lemma_search_finds_valid_plans(offered[0] + rest, state, goal, depth);
        lemma_search_each_finds_valid_plans(offered.skip(1), rest, state, goal, depth);
    }
}

/// What an executable search ended with, as the contracts see it.
pub open spec fn outcome_of(
    found: Result<Vec<SatelliteOperator<SatelliteEnum>>, PlanningFailure>,
) -> Outcome {
    match found {
        Ok(plan) => Ok(plan@),
        Err(failure) => Err(failure),
    }
}

/// The tasks after the first.
fn rest_of(tasks: &Vec<Task>) -> (rest: Vec<Task>)
    requires
        tasks@.len() > 0,
    ensures
        rest@ == tasks@.skip(1),
{
    let mut rest: Vec<Task> = Vec::new();
    let mut i: usize = 1;
    while i < tasks.len()
        invariant
            1 <= i <= tasks@.len(),
            rest@ == tasks@.subrange(1, i as int),
        decreases tasks@.len() - i,
    {
        rest.push(tasks[i]);
        i += 1;
    }
    rest
}

/// The tasks of `first` followed by those of `rest`.
fn followed_by(first: &Vec<Task>, rest: &Vec<Task>) -> (all: Vec<Task>)
    ensures
        all@ == first@ + rest@,
{
    let mut all: Vec<Task> = Vec::new();
    let mut i: usize = 0;
    while i < first.len()
        invariant
            i <= first@.len(),
            all@ == first@.take(i as int),
        decreases first@.len() - i,
    {
        all.push(first[i]);
        i += 1;
    }
    let mut j: usize = 0;
    while j < rest.len()
        invariant
            j <= rest@.len(),
            all@ == first@ + rest@.take(j as int),
        decreases rest@.len() - j,
    {
        all.push(rest[j]);
        j += 1;
    }
    all
}

/// Searches for a plan that does `tasks` from `state` and ends in a state
/// that meets `goal`, going at most `depth` tasks deep.
pub fn search_tasks(
    tasks: Vec<Task>,
    state: SatelliteState,
    goal: &SatelliteGoals,
    depth: u128,
) -> (found: Result<Vec<SatelliteOperator<SatelliteEnum>>, PlanningFailure>)
    ensures
        outcome_of(found) == search(tasks@, state@, goal@, depth as nat),
    decreases depth,
{
    if tasks.len() == 0 {
        if goal.accepts(&state) {
            let plan: Vec<SatelliteOperator<SatelliteEnum>> = Vec::new();
            return Ok(plan);
        } else {
            return Err(PlanningFailure::NoPlanFound);
        }
    }
    if depth == 0 {
        return Err(PlanningFailure::NoPlanFound);
    }
    let rest = rest_of(&tasks);
    match tasks[0] {
        Task::Operator(step) => {
            if !step.lookups_present(&state) {
                return Err(PlanningFailure::DomainInconsistency);
            }
            let mut next = state;
            if !step.attempt_update(&mut next) {
                return Err(PlanningFailure::NoPlanFound);
            }
            match search_tasks(rest, next, goal, depth - 1) {
                Ok(plan) => {
                    let mut plan = plan;
                    let ghost after = plan@;
                    plan.insert(0, step);
                    assert(plan@ =~= seq![step] + after);
                    Ok(plan)
                },
                Err(failure) => Err(failure),
            }
        },
        Task::Method(method) => {
            if !method.lookups_present(&state, goal) {
                return Err(PlanningFailure::DomainInconsistency);
            }
            match method.apply(&state, goal) {
                MethodResult::Failure => Err(PlanningFailure::NoPlanFound),
                MethodResult::PlanFound => search_tasks(rest, state, goal, depth - 1),
                MethodResult::TaskLists(offered) => {
                    let ghost all = task_lists(offered@);
                    let ghost whole = search_each(all, rest@, state@, goal@, (depth - 1) as nat);
                    let mut i: usize = 0;
                    assert(all.skip(0) =~= all);
                    while i < offered.len()
                        invariant
                            depth > 0,
                            i <= offered@.len(),
                            all == task_lists(offered@),
                            whole == search(tasks@, state@, goal@, depth as nat),
                            whole == search_each(
                                all.skip(i as int),
                                rest@,
                                state@,
                                goal@,
                                (depth - 1) as nat,
                            ),
                        decreases offered@.len() - i,
                    {
                        assert(all.skip(i as int).skip(1) =~= all.skip(i + 1));
                        let joined = followed_by(&offered[i], &rest);
                        match search_tasks(joined, state.clone(), goal, depth - 1) {
                            Ok(plan) => {
                                return Ok(plan);
                            },
                            Err(PlanningFailure::DomainInconsistency) => {
                                return Err(PlanningFailure::DomainInconsistency);
                            },
                            Err(PlanningFailure::NoPlanFound) => {},
                        }
                        i += 1;
                    }
                    Err(PlanningFailure::NoPlanFound)
                },
            }
        },
    }
}

/// Searches for a plan that leads from `start` to a state that meets
/// `goal`. The search starts with the task to schedule everything and goes
/// at most `depth` tasks deep.
///
/// A plan that is returned is valid: each of its steps can be applied
/// where the steps before it lead, and the last state meets the goal. It
/// makes no turn from a direction to itself.
pub fn plan_within(start: &SatelliteState, goal: &SatelliteGoals, depth: u128) -> (found: Result<
    Vec<SatelliteOperator<SatelliteEnum>>,
    PlanningFailure,
>)
    ensures
        outcome_of(found) == search(
            seq![Task::Method(SatelliteMethod::ScheduleAll)],
            start@,
            goal@,
            depth as nat,
        ),
        found matches Ok(steps) ==> valid_plan(steps@, start@, goal@) && makes_no_redundant_turn(
            steps@,
        ),
{
    let found = search_tasks(goal.starting_tasks(), start.clone(), goal, depth);
    proof {
        lemma_search_finds_valid_plans(
            seq![Task::Method(SatelliteMethod::ScheduleAll)],
            start@,
            goal@,
            depth as nat,
        );
        if let Ok(steps) = outcome_of(found) {
            lemma_applicable_plan_makes_no_redundant_turn(steps, start@);
        }
    }
    found
}

/// Searches for a plan that leads from `start` to a state that meets
/// `goal`. The search starts with the task to schedule everything and goes
/// as deep as any path can lead: ten tasks for each image that the goal
/// wants, one for each satellite that it wants turned, and one more. A
/// deeper search would end in the same way.
///
/// A plan that is returned is valid: each of its steps can be applied
/// where the steps before it lead, and the last state meets the goal. It
/// makes no turn from a direction to itself.
pub fn plan(start: &SatelliteState, goal: &SatelliteGoals) -> (found: Result<
    Vec<SatelliteOperator<SatelliteEnum>>,
    PlanningFailure,
>)
    ensures
        outcome_of(found) == search(
            seq![Task::Method(SatelliteMethod::ScheduleAll)],
            start@,
            goal@,
            goal@.sufficient_depth(),
        ),
        forall|depth: nat|
            depth >= goal@.sufficient_depth() ==> #[trigger] search(
                seq![Task::Method(SatelliteMethod::ScheduleAll)],
                start@,
                goal@,
                depth,
            ) == outcome_of(found),
        found matches Ok(steps) ==> valid_plan(steps@, start@, goal@) && makes_no_redundant_turn(
            steps@,
        ),
{
    let images = goal.have_image.len();
    let pointings = goal.pointing.len();
    let depth: u128 = 10 * (images as u128) + (pointings as u128) + 1;
    let found = plan_within(start, goal, depth);
    proof {
        assert forall|deeper: nat| deeper >= goal@.sufficient_depth() implies #[trigger] search(
            seq![Task::Method(SatelliteMethod::ScheduleAll)],
            start@,
            goal@,
            deeper,
        ) == outcome_of(found) by {
            crate::depth::lemma_sufficient_depth_suffices(start@, goal@, deeper);
        }
    }
    found
}

} // verus!
