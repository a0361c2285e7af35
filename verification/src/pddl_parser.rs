//! From a problem description to a state and a goal.
//!
//! A problem description names its objects and lists facts about them:
//! what holds at the start, what the numeric fluents are at the start, and
//! what shall hold in the end. The objects are numbered in the order in
//! which the description lists them, and each fact is entered into the
//! table that its name stands for. Facts with other names are passed over.
use crate::operators::{GoalView, SatelliteEnum, SatelliteGoals, SatelliteState, StateView};
use crate::quantity::{Quantity, COUNT_LIMIT, UNITS_PER_ONE};
use crate::table::{lists, Entry, Table};
use vstd::prelude::*;

verus! {

/// A fact: the name of a predicate or of a fluent, and the names of the
/// objects it is about.
#[derive(Debug, PartialEq, Eq)]
pub struct Predicate {
    pub tag: String,
    pub args: Vec<String>,
}

/// A problem description.
#[derive(Debug, PartialEq, Eq)]
pub struct PddlProblem {
    /// The names of the objects.
    pub objects: Vec<String>,
    /// The facts that hold at the start.
    pub bool_state: Vec<Predicate>,
    /// The numeric fluents with their values at the start.
    pub i40f24_state: Vec<(Predicate, Quantity)>,
    /// The facts that shall hold in the end.
    pub goals: Vec<Predicate>,
}

/// A fact as the contracts see it.
pub struct FactView {
    pub tag: Seq<char>,
    pub args: Seq<Seq<char>>,
}

impl View for Predicate {
    type V = FactView;

    open spec fn view(&self) -> FactView {
        FactView { tag: self.tag@, args: Seq::new(self.args@.len(), |i: int| self.args@[i]@) }
    }
}

/// The names of a list of strings.
pub open spec fn names_of(strings: Seq<String>) -> Seq<Seq<char>> {
    Seq::new(strings.len(), |i: int| strings[i]@)
}

/// The facts of a list of predicates.
pub open spec fn facts_of(predicates: Seq<Predicate>) -> Seq<FactView> {
    Seq::new(predicates.len(), |i: int| predicates[i]@)
}

/// The facts and values of a list of fluents.
pub open spec fn fluents_of(fluents: Seq<(Predicate, Quantity)>) -> Seq<(FactView, Quantity)> {
    Seq::new(fluents.len(), |i: int| (fluents[i].0@, fluents[i].1))
}

/// The names and numbers of a list of numbered objects.
pub open spec fn numbers_of(objects: Seq<(String, Quantity)>) -> Seq<(Seq<char>, Quantity)> {
    Seq::new(objects.len(), |i: int| (objects[i].0@, objects[i].1))
}

/// Each name with its place in the list as its number.
pub open spec fn numbered(names: Seq<Seq<char>>) -> Seq<(Seq<char>, Quantity)> {
    Seq::new(names.len(), |i: int| (names[i], Quantity { bits: (i * UNITS_PER_ONE) as i64 }))
}

/// The number of the first object called `name`.
pub open spec fn number_of(objects: Seq<(Seq<char>, Quantity)>, name: Seq<char>) -> Option<
    Quantity,
>
    decreases objects.len(),
{
    if objects.len() == 0 {
        None
    } else if objects[0].0 == name {
        Some(objects[0].1)
    } else {
        number_of(objects.skip(1), name)
    }
}

impl FactView {
    /// The number of the object that argument `place` names.
    pub open spec fn number_at(self, objects: Seq<(Seq<char>, Quantity)>, place: int) -> Option<
        Quantity,
    > {
        if 0 <= place < self.args.len() {
            number_of(objects, self.args[place])
        } else {
            None
        }
    }

    /// The numbers of the objects that the arguments `first` and `second`
    /// name, in this order.
    pub open spec fn numbers_at(
        self,
        objects: Seq<(Seq<char>, Quantity)>,
        first: int,
        second: int,
    ) -> Option<(Quantity, Quantity)> {
        match (self.number_at(objects, first), self.number_at(objects, second)) {
            (Some(a), Some(b)) => Some((a, b)),
            _ => None,
        }
    }
}

/// The table `table` with `item` added to the list under `key`.
pub open spec fn with_member(
    table: Map<SatelliteEnum, Seq<SatelliteEnum>>,
    key: SatelliteEnum,
    item: SatelliteEnum,
) -> Map<SatelliteEnum, Seq<SatelliteEnum>> {
    if table.contains_key(key) {
        table.insert(key, table[key].push(item))
    } else {
        table.insert(key, seq![item])
    }
}

/// The state with one more fact entered, or nothing if the fact lacks an
/// argument or names an object that is not listed.
pub open spec fn with_fact(
    state: StateView,
    fact: FactView,
    objects: Seq<(Seq<char>, Quantity)>,
) -> Option<StateView> {
    if fact.tag == "on_board"@ {
        match fact.numbers_at(objects, 1, 0) {
            Some((satellite, instrument)) => Some(
                StateView {
                    onboard: with_member(
                        state.onboard,
                        SatelliteEnum::Satellite(satellite),
                        SatelliteEnum::Instrument(instrument),
                    ),
                    ..state
                },
            ),
            None => None,
        }
    } else if fact.tag == "supports"@ {
        match fact.numbers_at(objects, 0, 1) {
            Some((instrument, mode)) => Some(
                StateView {
                    supports: with_member(
                        state.supports,
                        SatelliteEnum::Instrument(instrument),
                        SatelliteEnum::Mode(mode),
                    ),
                    ..state
                },
            ),
            None => None,
        }
    } else if fact.tag == "pointing"@ {
        match fact.numbers_at(objects, 0, 1) {
            Some((satellite, direction)) => Some(
                StateView {
                    pointing: state.pointing.insert(
                        SatelliteEnum::Satellite(satellite),
                        SatelliteEnum::Direction(direction),
                    ),
                    ..state
                },
            ),
            None => None,
        }
    } else if fact.tag == "power_avail"@ {
        match fact.number_at(objects, 0) {
            Some(satellite) => Some(
                StateView {
                    power_avail: state.power_avail.insert(
                        SatelliteEnum::Satellite(satellite),
                        true,
                    ),
                    ..state
                },
            ),
            None => None,
        }
    } else if fact.tag == "power_on"@ {
        match fact.number_at(objects, 0) {
            Some(instrument) => Some(
                StateView {
                    power_on: state.power_on.push(SatelliteEnum::Instrument(instrument)),
                    ..state
                },
            ),
            None => None,
        }
    } else if fact.tag == "calibrated"@ {
        match fact.number_at(objects, 0) {
            Some(instrument) => Some(
                StateView {
                    calibrated: state.calibrated.push(SatelliteEnum::Instrument(instrument)),
                    ..state
                },
            ),
            None => None,
        }
    } else if fact.tag == "have_image"@ {
        match fact.numbers_at(objects, 0, 1) {
            Some((direction, mode)) => Some(
                StateView {
                    have_image: state.have_image.insert(
                        SatelliteEnum::Direction(direction),
                        SatelliteEnum::Mode(mode),
                    ),
                    ..state
                },
            ),
            None => None,
        }
    } else if fact.tag == "calibration_target"@ {
        match fact.numbers_at(objects, 0, 1) {
            Some((instrument, direction)) => Some(
                StateView {
                    calibration_target: state.calibration_target.insert(
                        SatelliteEnum::Instrument(instrument),
                        SatelliteEnum::Direction(direction),
                    ),
                    ..state
                },
            ),
            None => None,
        }
    } else {
        Some(state)
    }
}

/// The state with one more fluent entered, or nothing if the fluent lacks
/// an argument, names an object that is not listed, or is the fuel used
/// with a whole part beyond 32 bits. Of the fuel used the whole part is
/// kept.
pub open spec fn with_fluent(
    state: StateView,
    fluent: FactView,
    value: Quantity,
    objects: Seq<(Seq<char>, Quantity)>,
) -> Option<StateView> {
    if fluent.tag == "data_capacity"@ {
        match fluent.number_at(objects, 0) {
            Some(satellite) => Some(
                StateView {
                    data_capacity: state.data_capacity.insert(
                        SatelliteEnum::Satellite(satellite),
                        value,
                    ),
                    ..state
                },
            ),
            None => None,
        }
    } else if fluent.tag == "fuel"@ {
        match fluent.number_at(objects, 0) {
            Some(satellite) => Some(
                StateView {
                    fuel: state.fuel.insert(SatelliteEnum::Satellite(satellite), value),
                    ..state
                },
            ),
            None => None,
        }
    } else if fluent.tag == "slew_time"@ {
        match fluent.numbers_at(objects, 0, 1) {
            Some((from, to)) => Some(
                StateView {
                    slew_time: state.slew_time.insert(
                        (SatelliteEnum::Direction(from), SatelliteEnum::Direction(to)),
                        value,
                    ),
                    ..state
                },
            ),
            None => None,
        }
    } else if fluent.tag == "data"@ {
        match fluent.numbers_at(objects, 0, 1) {
            Some((direction, mode)) => Some(
                StateView {
                    satellite_data_stored: state.satellite_data_stored.insert(
                        (SatelliteEnum::Direction(direction), SatelliteEnum::Mode(mode)),
                        value,
                    ),
                    ..state
                },
            ),
            None => None,
        }
    } else if fluent.tag == "fuel_used"@ {
        if i32::MIN <= value.whole() <= i32::MAX {
            Some(
                StateView {
                    fuel_used: Quantity { bits: (value.whole() * UNITS_PER_ONE) as i64 },
                    ..state
                },
            )
        } else {
            None
        }
    } else {
        Some(state)
    }
}

/// The state with the facts entered one after the other.
pub open spec fn with_facts(
    state: StateView,
    facts: Seq<FactView>,
    objects: Seq<(Seq<char>, Quantity)>,
) -> Option<StateView>
    decreases facts.len(),
{
    if facts.len() == 0 {
        Some(state)
    } else {
        match with_facts(state, facts.drop_last(), objects) {
            Some(before) => with_fact(before, facts.last(), objects),
            None => None,
        }
    }
}

/// The state with the fluents entered one after the other.
pub open spec fn with_fluents(
    state: StateView,
    fluents: Seq<(FactView, Quantity)>,
    objects: Seq<(Seq<char>, Quantity)>,
) -> Option<StateView>
    decreases fluents.len(),
{
    if fluents.len() == 0 {
        Some(state)
    } else {
        match with_fluents(state, fluents.drop_last(), objects) {
            Some(before) => with_fluent(before, fluents.last().0, fluents.last().1, objects),
            None => None,
        }
    }
}

/// The sum of the whole parts of the data volumes under `keys`, or nothing
/// if a whole part or the sum does not fit in 32 bits without a sign.
pub open spec fn whole_data(
    volumes: Map<(SatelliteEnum, SatelliteEnum), Quantity>,
    keys: Seq<(SatelliteEnum, SatelliteEnum)>,
) -> Option<int>
    decreases keys.len(),
{
    if keys.len() == 0 {
        Some(0)
    } else {
        let whole = volumes[keys.last()].whole();
        match whole_data(volumes, keys.drop_last()) {
            Some(before) => if 0 <= whole <= u32::MAX && before + whole <= u32::MAX {
                Some(before + whole)
            } else {
                None
            },
            None => None,
        }
    }
}

/// The power table in which every satellite that carries an instrument has
/// an entry: the one it had, or else that its power is taken.
pub open spec fn with_power_entries(state: StateView) -> Map<SatelliteEnum, bool> {
    Map::new(
        |satellite: SatelliteEnum|
            state.power_avail.contains_key(satellite) || state.onboard.contains_key(satellite),
        |satellite: SatelliteEnum|
            if state.power_avail.contains_key(satellite) {
                state.power_avail[satellite]
            } else {
                false
            },
    )
}

/// The state without any entry.
pub open spec fn empty_state() -> StateView {
    StateView {
        onboard: Map::empty(),
        supports: Map::empty(),
        pointing: Map::empty(),
        power_avail: Map::empty(),
        power_on: Seq::empty(),
        calibrated: Seq::empty(),
        have_image: Map::empty(),
        calibration_target: Map::empty(),
        data_capacity: Map::empty(),
        total_data_stored: Quantity { bits: 0 },
        satellite_data_stored: Map::empty(),
        slew_time: Map::empty(),
        fuel_used: Quantity { bits: 0 },
        fuel: Map::empty(),
        status: crate::methods::SatelliteStatus::Done,
        strips: false,
    }
}

/// The state that a problem description gives: the facts entered, then the
/// fluents, then the power entries completed and the data stored set to
/// the sum of the whole parts of all data volumes. There is none if a fact
/// or a fluent cannot be entered or that sum does not fit.
pub open spec fn described_state(
    facts: Seq<FactView>,
    fluents: Seq<(FactView, Quantity)>,
    objects: Seq<(Seq<char>, Quantity)>,
) -> Option<StateView> {
    match with_facts(empty_state(), facts, objects) {
        None => None,
        Some(entered) => match with_fluents(entered, fluents, objects) {
            None => None,
            Some(valued) => match whole_data(
                valued.satellite_data_stored,
                crate::table::ordered_keys(valued.satellite_data_stored.dom()),
            ) {
                None => None,
                Some(total) => Some(
                    StateView {
                        power_avail: with_power_entries(valued),
                        total_data_stored: Quantity { bits: (total * UNITS_PER_ONE) as i64 },
                        ..valued
                    },
                ),
            },
        },
    }
}

/// The goal with one more fact entered, or nothing if the fact lacks an
/// argument or names an object that is not listed.
pub open spec fn with_goal_fact(
    goal: GoalView,
    fact: FactView,
    objects: Seq<(Seq<char>, Quantity)>,
) -> Option<GoalView> {
    if fact.tag == "have_image"@ {
        match fact.numbers_at(objects, 0, 1) {
            Some((direction, mode)) => Some(
                GoalView {
                    have_image: goal.have_image.insert(
                        SatelliteEnum::Direction(direction),
                        SatelliteEnum::Mode(mode),
                    ),
                    ..goal
                },
            ),
            None => None,
        }
    } else if fact.tag == "pointing"@ {
        match fact.numbers_at(objects, 0, 1) {
            Some((satellite, direction)) => Some(
                GoalView {
                    pointing: goal.pointing.insert(
                        SatelliteEnum::Satellite(satellite),
                        SatelliteEnum::Direction(direction),
                    ),
                    ..goal
                },
            ),
            None => None,
        }
    } else {
        Some(goal)
    }
}

/// The goal that the goal facts of a problem description give.
pub open spec fn described_goal(
    facts: Seq<FactView>,
    objects: Seq<(Seq<char>, Quantity)>,
) -> Option<GoalView>
    decreases facts.len(),
{
    if facts.len() == 0 {
        Some(
            GoalView {
                have_image: Map::empty(),
                pointing: Map::empty(),
                fuel_used: Quantity { bits: 0 },
            },
        )
    } else {
        match described_goal(facts.drop_last(), objects) {
            Some(before) => with_goal_fact(before, facts.last(), objects),
            None => None,
        }
    }
}

impl Predicate {
    /// The name of the predicate.
    pub fn get_tag(&self) -> (tag: &String)
        ensures
            tag@ == self@.tag,
    {
        &self.tag
    }

    /// The name of the object at `place`, if the fact has that many
    /// arguments.
    pub fn get_arg(&self, place: usize) -> (name: Option<&String>)
        ensures
            place < self@.args.len() ==> name.is_some() && name.unwrap()@ == self@.args[place as int],
            place >= self@.args.len() ==> name.is_none(),
    {
        if place < self.args.len() {
            Some(&self.args[place])
        } else {
            None
        }
    }

    /// Whether the predicate is called `name`.
    pub fn is_called(&self, name: &str) -> (holds: bool)
        ensures
            holds == (self@.tag == name@),
    {
        self.tag == name.to_owned()
    }
}

/// Numbers the objects of a problem description in the order in which it
/// lists them. There are no numbers for more objects than a quantity can
/// count.
pub fn enumerate_objects(parsed: &PddlProblem) -> (objects: Option<Vec<(String, Quantity)>>)
    ensures
        parsed.objects@.len() <= COUNT_LIMIT ==> objects.is_some() && numbers_of(
            objects.unwrap()@,
        ) == numbered(names_of(parsed.objects@)),
        parsed.objects@.len() > COUNT_LIMIT ==> objects.is_none(),
{
    let mut objects: Vec<(String, Quantity)> = Vec::new();
    let mut i: usize = 0;
    while i < parsed.objects.len()
        invariant
            i <= parsed.objects@.len(),
            i <= COUNT_LIMIT,
            objects@.len() == i,
            forall|j: int|
                0 <= j < i ==> (#[trigger] objects@[j]).0@ == parsed.objects@[j]@ && objects@[j].1
                    == (Quantity { bits: (j * UNITS_PER_ONE) as i64 }),
        decreases parsed.objects@.len() - i,
    {
        match Quantity::from_count(i as u64) {
            Some(number) => {
                objects.push((parsed.objects[i].clone(), number));
            },
            None => {
                return None;
            },
        }
        i += 1;
    }
    Some(objects)
}

/// The number of the object called `obj_name`, if it is listed.
pub fn obj_get(obj_name: &String, objects: &Vec<(String, Quantity)>) -> (number: Option<Quantity>)
    ensures
        number == number_of(numbers_of(objects@), obj_name@),
{
    let ghost all = numbers_of(objects@);
    let mut i: usize = 0;
    assert(all.skip(0) =~= all);
    while i < objects.len()
        invariant
            i <= objects@.len(),
            all == numbers_of(objects@),
            number_of(all, obj_name@) == number_of(all.skip(i as int), obj_name@),
        decreases objects@.len() - i,
    {
        assert(all.skip(i as int).skip(1) =~= all.skip(i + 1));
        if objects[i].0 == *obj_name {
            return Some(objects[i].1);
        }
        i += 1;
    }
    None
}

/// The number of the object that argument `place` of the fact names.
pub fn decode_one(p: &Predicate, objects: &Vec<(String, Quantity)>, place: usize) -> (number:
    Option<Quantity>)
    ensures
        number == p@.number_at(numbers_of(objects@), place as int),
{
    match p.get_arg(place) {
        Some(name) => obj_get(name, objects),
        None => None,
    }
}

/// The numbers of the objects that the arguments `first` and `second` of
/// the fact name.
pub fn decode_pair(
    p: &Predicate,
    objects: &Vec<(String, Quantity)>,
    first: usize,
    second: usize,
) -> (pair: Option<(Quantity, Quantity)>)
    ensures
        pair == p@.numbers_at(numbers_of(objects@), first as int, second as int),
{
    match decode_one(p, objects, first) {
        Some(a) => match decode_one(p, objects, second) {
            Some(b) => Some((a, b)),
            None => None,
        },
        None => None,
    }
}

/// The satellite and the instrument of an `on_board` fact, which names the
/// instrument first.
pub fn decode_onboard(p: &Predicate, objects: &Vec<(String, Quantity)>) -> (pair: Option<
    (Quantity, Quantity),
>)
    ensures
        pair == p@.numbers_at(numbers_of(objects@), 1, 0),
{
    decode_pair(p, objects, 1, 0)
}

/// The instrument and the mode of a `supports` fact.
pub fn decode_supports(p: &Predicate, objects: &Vec<(String, Quantity)>) -> (pair: Option<
    (Quantity, Quantity),
>)
    ensures
        pair == p@.numbers_at(numbers_of(objects@), 0, 1),
{
    decode_pair(p, objects, 0, 1)
}

/// The satellite and the direction of a `pointing` fact.
pub fn decode_pointing(p: &Predicate, objects: &Vec<(String, Quantity)>) -> (pair: Option<
    (Quantity, Quantity),
>)
    ensures
        pair == p@.numbers_at(numbers_of(objects@), 0, 1),
{
    decode_pair(p, objects, 0, 1)
}

/// The direction and the mode of a `have_image` fact.
pub fn decode_have_image(p: &Predicate, objects: &Vec<(String, Quantity)>) -> (pair: Option<
    (Quantity, Quantity),
>)
    ensures
        pair == p@.numbers_at(numbers_of(objects@), 0, 1),
{
    decode_pair(p, objects, 0, 1)
}

/// The instrument and the direction of a `calibration_target` fact.
pub fn decode_calibration_target(p: &Predicate, objects: &Vec<(String, Quantity)>) -> (pair:
    Option<(Quantity, Quantity)>)
    ensures
        pair == p@.numbers_at(numbers_of(objects@), 0, 1),
{
    decode_pair(p, objects, 0, 1)
}

/// Adds `item` to the list under `key`, which it starts if there is none.
pub fn add_member(
    table: &mut Table<SatelliteEnum, Vec<SatelliteEnum>>,
    key: SatelliteEnum,
    item: SatelliteEnum,
)
    ensures
        final(table)@ == with_member(old(table)@, key, item),
{
    let mut members = match table.get(&key) {
        Some(members) => members.duplicate(),
        None => Vec::new(),
    };
    members.push(item);
    table.insert(key, members);
}

/// Enters one fact into the state, and says whether it could. A fact that
/// cannot be entered leaves the state as it was.
pub fn enter_fact(state: &mut SatelliteState, p: &Predicate, objects: &Vec<(String, Quantity)>) -> (entered:
    bool)
    ensures
        entered == with_fact(old(state)@, p@, numbers_of(objects@)).is_some(),
        entered ==> final(state)@ == with_fact(old(state)@, p@, numbers_of(objects@)).unwrap(),
        !entered ==> *final(state) == *old(state),
{
    if p.is_called("on_board") {
        match decode_onboard(p, objects) {
            Some((satellite, instrument)) => {
                add_member(
                    &mut state.onboard,
                    SatelliteEnum::Satellite(satellite),
                    SatelliteEnum::Instrument(instrument),
                );
                true
            },
            None => false,
        }
    } else if p.is_called("supports") {
        match decode_supports(p, objects) {
            Some((instrument, mode)) => {
                add_member(
                    &mut state.supports,
                    SatelliteEnum::Instrument(instrument),
                    SatelliteEnum::Mode(mode),
                );
                true
            },
            None => false,
        }
    } else if p.is_called("pointing") {
        match decode_pointing(p, objects) {
            Some((satellite, direction)) => {
                state.pointing.insert(
                    SatelliteEnum::Satellite(satellite),
                    SatelliteEnum::Direction(direction),
                );
                true
            },
            None => false,
        }
    } else if p.is_called("power_avail") {
        match decode_one(p, objects, 0) {
            Some(satellite) => {
                state.power_avail.insert(SatelliteEnum::Satellite(satellite), true);
                true
            },
            None => false,
        }
    } else if p.is_called("power_on") {
        match decode_one(p, objects, 0) {
            Some(instrument) => {
                state.power_on.push(SatelliteEnum::Instrument(instrument));
                true
            },
            None => false,
        }
    } else if p.is_called("calibrated") {
        match decode_one(p, objects, 0) {
            Some(instrument) => {
                state.calibrated.push(SatelliteEnum::Instrument(instrument));
                true
            },
            None => false,
        }
    } else if p.is_called("have_image") {
        match decode_have_image(p, objects) {
            Some((direction, mode)) => {
                state.have_image.insert(
                    SatelliteEnum::Direction(direction),
                    SatelliteEnum::Mode(mode),
                );
                true
            },
            None => false,
        }
    } else if p.is_called("calibration_target") {
        match decode_calibration_target(p, objects) {
            Some((instrument, direction)) => {
                state.calibration_target.insert(
                    SatelliteEnum::Instrument(instrument),
                    SatelliteEnum::Direction(direction),
                );
                true
            },
            None => false,
        }
    } else {
        true
    }
}

/// Enters one fluent into the state, and says whether it could. A fluent
/// that cannot be entered leaves the state as it was.
pub fn enter_fluent(
    state: &mut SatelliteState,
    p: &Predicate,
    value: Quantity,
    objects: &Vec<(String, Quantity)>,
) -> (entered: bool)
    ensures
        entered == with_fluent(old(state)@, p@, value, numbers_of(objects@)).is_some(),
        entered ==> final(state)@ == with_fluent(
            old(state)@,
            p@,
            value,
            numbers_of(objects@),
        ).unwrap(),
        !entered ==> *final(state) == *old(state),
{
    if p.is_called("data_capacity") {
        match decode_one(p, objects, 0) {
            Some(satellite) => {
                state.data_capacity.insert(SatelliteEnum::Satellite(satellite), value);
                true
            },
            None => false,
        }
    } else if p.is_called("fuel") {
        match decode_one(p, objects, 0) {
            Some(satellite) => {
                state.fuel.insert(SatelliteEnum::Satellite(satellite), value);
                true
            },
            None => false,
        }
    } else if p.is_called("slew_time") {
        match decode_pair(p, objects, 0, 1) {
            Some((from, to)) => {
                state.slew_time.insert(
                    (SatelliteEnum::Direction(from), SatelliteEnum::Direction(to)),
                    value,
                );
                true
            },
            None => false,
        }
    } else if p.is_called("data") {
        match decode_pair(p, objects, 0, 1) {
            Some((direction, mode)) => {
                state.satellite_data_stored.insert(
                    (SatelliteEnum::Direction(direction), SatelliteEnum::Mode(mode)),
                    value,
                );
                true
            },
            None => false,
        }
    } else if p.is_called("fuel_used") {
        let whole = value.to_whole();
        if -0x8000_0000 <= whole && whole <= 0x7fff_ffff {
            match Quantity::from_whole(whole) {
                Some(used) => {
                    state.fuel_used = used;
                    true
                },
                None => false,
            }
        } else {
            false
        }
    } else {
        true
    }
}

/// The sum of the whole parts of all data volumes, if each of them and the
/// sum fit in 32 bits without a sign.
pub fn sum_of_whole_data(volumes: &Table<(SatelliteEnum, SatelliteEnum), Quantity>) -> (total:
    Option<u32>)
    ensures
        match total {
            Some(sum) => whole_data(volumes@, volumes.keys()) == Some(sum as int),
            None => whole_data(volumes@, volumes.keys()).is_none(),
        },
{
    let n = volumes.len();
    let ghost keys = volumes.keys();
    let mut total: u32 = 0;
    let mut i: usize = 0;
    while i < n
        invariant
            n == keys.len(),
            keys == volumes.keys(),
            i <= n,
            whole_data(volumes@, keys.take(i as int)) == Some(total as int),
        decreases n - i,
    {
        proof {
            let upto = keys.take(i + 1);
            assert(upto.drop_last() =~= keys.take(i as int));
        }
        let whole = volumes.value_at(i).to_whole();
        if whole < 0 || whole > 0xffff_ffff || whole > 0xffff_ffff - (total as i64) {
            proof {
                lemma_whole_data_stays_none(volumes@, keys, i + 1);
            }
            return None;
        }
        total = total + (whole as u32);
        i += 1;
    }
    assert(keys.take(n as int) =~= keys);
    Some(total)
}

/// Once the sum of the whole parts fails for the first keys, it fails for
/// all of them.
pub proof fn lemma_whole_data_stays_none(
    volumes: Map<(SatelliteEnum, SatelliteEnum), Quantity>,
    keys: Seq<(SatelliteEnum, SatelliteEnum)>,
    upto: int,
)
    requires
        0 <= upto <= keys.len(),
        whole_data(volumes, keys.take(upto)).is_none(),
    ensures
        whole_data(volumes, keys).is_none(),
    decreases keys.len() - upto,
{
    if upto < keys.len() {
        let next = keys.take(upto + 1);
        assert(next.drop_last() =~= keys.take(upto));
        lemma_whole_data_stays_none(volumes, keys, upto + 1);
    } else {
        assert(keys.take(upto) =~= keys);
    }
}

/// Once a fact cannot be entered, the facts as a whole cannot.
pub proof fn lemma_with_facts_stays_none(
    state: StateView,
    facts: Seq<FactView>,
    objects: Seq<(Seq<char>, Quantity)>,
    upto: int,
)
    requires
        0 <= upto <= facts.len(),
        with_facts(state, facts.take(upto), objects).is_none(),
    ensures
        with_facts(state, facts, objects).is_none(),
    decreases facts.len() - upto,
{
    if upto < facts.len() {
        let next = facts.take(upto + 1);
        assert(next.drop_last() =~= facts.take(upto));
        lemma_with_facts_stays_none(state, facts, objects, upto + 1);
    } else {
        assert(facts.take(upto) =~= facts);
    }
}

/// Once a fluent cannot be entered, the fluents as a whole cannot.
pub proof fn lemma_with_fluents_stays_none(
    state: StateView,
    fluents: Seq<(FactView, Quantity)>,
    objects: Seq<(Seq<char>, Quantity)>,
    upto: int,
)
    requires
        0 <= upto <= fluents.len(),
        with_fluents(state, fluents.take(upto), objects).is_none(),
    ensures
        with_fluents(state, fluents, objects).is_none(),
    decreases fluents.len() - upto,
{
    if upto < fluents.len() {
        let next = fluents.take(upto + 1);
        assert(next.drop_last() =~= fluents.take(upto));
        lemma_with_fluents_stays_none(state, fluents, objects, upto + 1);
    } else {
        assert(fluents.take(upto) =~= fluents);
    }
}

/// Once a goal fact cannot be entered, the goal facts as a whole cannot.
pub proof fn lemma_described_goal_stays_none(
    facts: Seq<FactView>,
    objects: Seq<(Seq<char>, Quantity)>,
    upto: int,
)
    requires
        0 <= upto <= facts.len(),
        described_goal(facts.take(upto), objects).is_none(),
    ensures
        described_goal(facts, objects).is_none(),
    decreases facts.len() - upto,
{
    if upto < facts.len() {
        let next = facts.take(upto + 1);
        assert(next.drop_last() =~= facts.take(upto));
        lemma_described_goal_stays_none(facts, objects, upto + 1);
    } else {
        assert(facts.take(upto) =~= facts);
    }
}

/// Gives every satellite that carries an instrument an entry in the power
/// table: a satellite without one has its power taken.
pub fn complete_power_entries(state: &mut SatelliteState)
    ensures
        final(state)@ == (StateView { power_avail: with_power_entries(old(state)@), ..old(state)@ }),
{
    let n = state.onboard.len();
    let ghost satellites = state.onboard.keys();
    let ghost start = state@;
    let mut i: usize = 0;
    while i < n
        invariant
            n == satellites.len(),
            lists(satellites, start.onboard.dom()),
            state.onboard.keys() == satellites,
            i <= n,
            state@ == (StateView { power_avail: state@.power_avail, ..start }),
            forall|satellite: SatelliteEnum| #[trigger]
                state@.power_avail.contains_key(satellite) <==> start.power_avail.contains_key(
                    satellite,
                ) || satellites.take(i as int).contains(satellite),
            forall|satellite: SatelliteEnum| #[trigger]
                state@.power_avail.contains_key(satellite) ==> state@.power_avail[satellite]
                    == with_power_entries(start)[satellite],
        decreases n - i,
    {
        let satellite = state.onboard.key_at(i);
        let ghost before = state@.power_avail;
        if !state.power_avail.contains_key(&satellite) {
            state.power_avail.insert(satellite, false);
        }
        proof {
            let upto = satellites.take(i as int);
            let next = satellites.take(i + 1);
            assert forall|other: SatelliteEnum| #[trigger]
                state@.power_avail.contains_key(other) <==> start.power_avail.contains_key(other)
                    || next.contains(other) by {
                if upto.contains(other) {
                    let j = choose|j: int| 0 <= j < upto.len() && upto[j] == other;
                    assert(next[j] == other);
                }
                if other == satellite {
                    assert(next[i as int] == other);
                }
                if next.contains(other) {
                    let j = choose|j: int| 0 <= j < next.len() && next[j] == other;
                    assert(j < i ==> upto[j] == other);
                }
            }
            assert forall|other: SatelliteEnum| #[trigger]
                state@.power_avail.contains_key(other) implies state@.power_avail[other]
                == with_power_entries(start)[other] by {
                assert(before.contains_key(other) || other == satellite);
            }
        }
        i += 1;
    }
    proof {
        assert(satellites.take(n as int) =~= satellites);
        assert forall|satellite: SatelliteEnum|
            state@.power_avail.contains_key(satellite) <==> with_power_entries(
                start,
            ).contains_key(satellite) by {
        }
        assert(state@.power_avail =~= with_power_entries(start));
    }
}

/// The state that the facts and fluents of a problem description give.
pub fn extract_state(parsed: &PddlProblem, objects: &Vec<(String, Quantity)>) -> (state: Option<
    SatelliteState,
>)
    ensures
        match described_state(
            facts_of(parsed.bool_state@),
            fluents_of(parsed.i40f24_state@),
            numbers_of(objects@),
        ) {
            Some(described) => state.is_some() && state.unwrap()@ == described,
            None => state.is_none(),
        },
{
    let ghost facts = facts_of(parsed.bool_state@);
    let ghost fluents = fluents_of(parsed.i40f24_state@);
    let ghost numbers = numbers_of(objects@);
    let mut state = SatelliteState::new(
        Table::new(),
        Table::new(),
        Table::new(),
        Table::new(),
        Vec::new(),
        Vec::new(),
        Table::new(),
        Table::new(),
        Table::new(),
        Quantity::zero(),
        Table::new(),
        Table::new(),
        Quantity::zero(),
        Table::new(),
    );
    let mut i: usize = 0;
    while i < parsed.bool_state.len()
        invariant
            i <= parsed.bool_state@.len(),
            facts == facts_of(parsed.bool_state@),
            numbers == numbers_of(objects@),
            with_facts(empty_state(), facts.take(i as int), numbers) == Some(state@),
        decreases parsed.bool_state@.len() - i,
    {
        proof {
            let upto = facts.take(i + 1);
            assert(upto.drop_last() =~= facts.take(i as int));
        }
        if !enter_fact(&mut state, &parsed.bool_state[i], objects) {
            proof {
                lemma_with_facts_stays_none(empty_state(), facts, numbers, i + 1);
            }
            return None;
        }
        i += 1;
    }
    assert(facts.take(facts.len() as int) =~= facts);
    let ghost entered = state@;
    let mut k: usize = 0;
    while k < parsed.i40f24_state.len()
        invariant
            k <= parsed.i40f24_state@.len(),
            facts == facts_of(parsed.bool_state@),
            fluents == fluents_of(parsed.i40f24_state@),
            numbers == numbers_of(objects@),
            with_facts(empty_state(), facts, numbers) == Some(entered),
            with_fluents(entered, fluents.take(k as int), numbers) == Some(state@),
        decreases parsed.i40f24_state@.len() - k,
    {
        proof {
            let upto = fluents.take(k + 1);
            assert(upto.drop_last() =~= fluents.take(k as int));
        }
        let fluent = &parsed.i40f24_state[k];
        if !enter_fluent(&mut state, &fluent.0, fluent.1, objects) {
            proof {
                lemma_with_fluents_stays_none(entered, fluents, numbers, k + 1);
            }
            return None;
        }
        k += 1;
    }
    assert(fluents.take(fluents.len() as int) =~= fluents);
    let total = match sum_of_whole_data(&state.satellite_data_stored) {
        Some(total) => total,
        None => {
            return None;
        },
    };
    complete_power_entries(&mut state);
    match Quantity::from_count(total as u64) {
        Some(stored) => {
            state.total_data_stored = stored;
            Some(state)
        },
        None => None,
    }
}

/// The goal that the goal facts of a problem description give.
pub fn extract_goals(parsed: &PddlProblem, objects: &Vec<(String, Quantity)>) -> (goal: Option<
    SatelliteGoals,
>)
    ensures
        match described_goal(facts_of(parsed.goals@), numbers_of(objects@)) {
            Some(described) => goal.is_some() && goal.unwrap()@ == described,
            None => goal.is_none(),
        },
{
    let ghost facts = facts_of(parsed.goals@);
    let ghost numbers = numbers_of(objects@);
    let mut have_image: Table<SatelliteEnum, SatelliteEnum> = Table::new();
    let mut pointing: Table<SatelliteEnum, SatelliteEnum> = Table::new();
    let mut i: usize = 0;
    while i < parsed.goals.len()
        invariant
            i <= parsed.goals@.len(),
            facts == facts_of(parsed.goals@),
            numbers == numbers_of(objects@),
            described_goal(facts.take(i as int), numbers) == Some(
                GoalView {
                    have_image: have_image@,
                    pointing: pointing@,
                    fuel_used: Quantity { bits: 0 },
                },
            ),
        decreases parsed.goals@.len() - i,
    {
        proof {
            let upto = facts.take(i + 1);
            assert(upto.drop_last() =~= facts.take(i as int));
        }
        let fact = &parsed.goals[i];
        let entered = if fact.is_called("have_image") {
            match decode_have_image(fact, objects) {
                Some((direction, mode)) => {
                    have_image.insert(
                        SatelliteEnum::Direction(direction),
                        SatelliteEnum::Mode(mode),
                    );
                    true
                },
                None => false,
            }
        } else if fact.is_called("pointing") {
            match decode_pointing(fact, objects) {
                Some((satellite, direction)) => {
                    pointing.insert(
                        SatelliteEnum::Satellite(satellite),
                        SatelliteEnum::Direction(direction),
                    );
                    true
                },
                None => false,
            }
        } else {
            true
        };
        if !entered {
            proof {
                lemma_described_goal_stays_none(facts, numbers, i + 1);
            }
            return None;
        }
        i += 1;
    }
    assert(facts.take(facts.len() as int) =~= facts);
    Some(SatelliteGoals::new(have_image, pointing, Quantity::zero()))
}

/// The state and the goal that a problem description gives. There are
/// none if it lists more objects than a quantity can count, or if the
/// state or the goal cannot be built from its facts.
pub fn make_satellite_problem_from(parsed: &PddlProblem) -> (problem: Option<
    (SatelliteState, SatelliteGoals),
>)
    ensures
        match problem {
            Some((state, goal)) => {
                &&& parsed.objects@.len() <= COUNT_LIMIT
                &&& Some(state@) == described_state(
                    facts_of(parsed.bool_state@),
                    fluents_of(parsed.i40f24_state@),
                    numbered(names_of(parsed.objects@)),
                )
                &&& Some(goal@) == described_goal(
                    facts_of(parsed.goals@),
                    numbered(names_of(parsed.objects@)),
                )
            },
            None => {
                ||| parsed.objects@.len() > COUNT_LIMIT
                ||| described_state(
                    facts_of(parsed.bool_state@),
                    fluents_of(parsed.i40f24_state@),
                    numbered(names_of(parsed.objects@)),
                ).is_none()
                ||| described_goal(
                    facts_of(parsed.goals@),
                    numbered(names_of(parsed.objects@)),
                ).is_none()
            },
        },
{
    let objects = match enumerate_objects(parsed) {
        Some(objects) => objects,
        None => {
            return None;
        },
    };
    let state = match extract_state(parsed, &objects) {
        Some(state) => state,
        None => {
            return None;
        },
    };
    let goal = match extract_goals(parsed, &objects) {
        Some(goal) => goal,
        None => {
            return None;
        },
    };
    Some((state, goal))
}

} // verus!
