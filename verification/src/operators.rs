//! The world state of the satellite domain and its five primitive operators.
use crate::methods::SatelliteStatus;
use crate::quantity::Quantity;
use crate::table::{lists, Entry, Key, Table};
use vstd::prelude::*;

verus! {

/// An object of the domain: an instrument, a satellite, a mode or a
/// direction, with its number.
#[derive(Clone, Copy, PartialOrd, PartialEq, Ord, Eq, Debug, Hash, Structural)]
pub enum SatelliteEnum {
    Instrument(Quantity),
    Satellite(Quantity),
    Mode(Quantity),
    Direction(Quantity),
}

impl View for SatelliteEnum {
    type V = SatelliteEnum;

    open spec fn view(&self) -> SatelliteEnum {
        *self
    }
}

impl SatelliteEnum {
    /// The place of the object's kind among the four kinds.
    pub open spec fn kind_index(self) -> int {
        match self {
            SatelliteEnum::Instrument(_) => 0,
            SatelliteEnum::Satellite(_) => 1,
            SatelliteEnum::Mode(_) => 2,
            SatelliteEnum::Direction(_) => 3,
        }
    }

    /// The number of the object within its kind.
    pub open spec fn number(self) -> Quantity {
        match self {
            SatelliteEnum::Instrument(n) => n,
            SatelliteEnum::Satellite(n) => n,
            SatelliteEnum::Mode(n) => n,
            SatelliteEnum::Direction(n) => n,
        }
    }

    fn kind_and_number(&self) -> (pair: (u8, i64))
        ensures
            pair.0 == self.kind_index(),
            pair.1 == self.number().bits,
    {
        match self {
            SatelliteEnum::Instrument(n) => (0, n.bits),
            SatelliteEnum::Satellite(n) => (1, n.bits),
            SatelliteEnum::Mode(n) => (2, n.bits),
            SatelliteEnum::Direction(n) => (3, n.bits),
        }
    }
}

/// Objects are ordered by kind first (instruments, satellites, modes,
/// directions) and by number within a kind.
impl Key for SatelliteEnum {
    open spec fn rank(&self) -> int {
        self.kind_index() * 0x1_0000_0000_0000_0000 + (self.number().bits - i64::MIN)
    }

    proof fn lemma_rank_is_one_to_one(a: Self, b: Self) {
    }

    fn precedes(&self, other: &Self) -> (before: bool) {
        let mine = self.kind_and_number();
        let theirs = other.kind_and_number();
        mine.0 < theirs.0 || (mine.0 == theirs.0 && mine.1 < theirs.1)
    }
}

/// Pairs of objects are ordered by their first object, then by their second.
impl Key for (SatelliteEnum, SatelliteEnum) {
    open spec fn rank(&self) -> int {
        self.0.rank() * 0x4_0000_0000_0000_0000 + self.1.rank()
    }

    proof fn lemma_rank_is_one_to_one(a: Self, b: Self) {
        SatelliteEnum::lemma_rank_is_one_to_one(a.0, b.0);
    }

    fn precedes(&self, other: &Self) -> (before: bool) {
        self.0.precedes(&other.0) || (!other.0.precedes(&self.0) && self.1.precedes(&other.1))
    }
}

impl Entry for SatelliteEnum {
    fn duplicate(&self) -> (copy: SatelliteEnum) {
        *self
    }
}

impl Entry for Quantity {
    fn duplicate(&self) -> (copy: Quantity) {
        *self
    }
}

impl Entry for Vec<SatelliteEnum> {
    fn duplicate(&self) -> (copy: Vec<SatelliteEnum>) {
        let mut copy: Vec<SatelliteEnum> = Vec::new();
        let mut i: usize = 0;
        while i < self.len()
            invariant
                i <= self@.len(),
                copy@ == self@.take(i as int),
            decreases self@.len() - i,
        {
            copy.push(self[i]);
            i += 1;
        }
        assert(self@.take(self@.len() as int) =~= self@);
        copy
    }
}

/// The list `list` without every occurrence of `item`.
pub open spec fn without(list: Seq<SatelliteEnum>, item: SatelliteEnum) -> Seq<SatelliteEnum>
    decreases list.len(),
{
    if list.len() == 0 {
        list
    } else if list.last() == item {
        without(list.drop_last(), item)
    } else {
        without(list.drop_last(), item).push(list.last())
    }
}

/// Whether `item` occurs in `list`.
pub fn list_contains(list: &Vec<SatelliteEnum>, item: &SatelliteEnum) -> (found: bool)
    ensures
        found == list@.contains(*item),
{
    let mut i: usize = 0;
    while i < list.len()
        invariant
            i <= list@.len(),
            forall|j: int| 0 <= j < i ==> list@[j] != *item,
        decreases list@.len() - i,
    {
        if list[i] == *item {
            return true;
        }
        i += 1;
    }
    false
}

/// Takes every occurrence of `item` out of `list` and keeps the rest in
/// their order.
pub fn remove_all(list: &mut Vec<SatelliteEnum>, item: &SatelliteEnum)
    ensures
        final(list)@ == without(old(list)@, *item),
{
    let mut kept: Vec<SatelliteEnum> = Vec::new();
    let mut i: usize = 0;
    while i < list.len()
        invariant
            *list == *old(list),
            i <= list@.len(),
            kept@ == without(list@.take(i as int), *item),
        decreases list@.len() - i,
    {
        proof {
            let upto = list@.take(i + 1);
            assert(upto.drop_last() =~= list@.take(i as int));
        }
        if list[i] != *item {
            kept.push(list[i]);
        }
        i += 1;
    }
    assert(list@.take(list@.len() as int) =~= list@);
    *list = kept;
}

/// `without` takes the item out and leaves every other item in.
pub proof fn lemma_without_contains(list: Seq<SatelliteEnum>, item: SatelliteEnum)
    ensures
        forall|other: SatelliteEnum|
            #[trigger] without(list, item).contains(other) <==> other != item && list.contains(
                other,
            ),
    decreases list.len(),
{
    if list.len() > 0 {
        let front = list.drop_last();
        lemma_without_contains(front, item);
        assert forall|other: SatelliteEnum| #[trigger]
            without(list, item).contains(other) <==> other != item && list.contains(other) by {
            let kept = without(list, item);
            if kept.contains(other) {
                let i = choose|i: int| 0 <= i < kept.len() && kept[i] == other;
                if list.last() == item || i < kept.len() - 1 {
                    assert(without(front, item).contains(other));
                }
            }
            if other != item && list.contains(other) {
                let j = choose|j: int| 0 <= j < list.len() && list[j] == other;
                if j == list.len() - 1 {
                    assert(kept[kept.len() - 1] == other);
                } else {
                    assert(front[j] == other);
                    assert(without(front, item).contains(other));
                    let i = choose|i: int|
                        0 <= i < without(front, item).len() && without(front, item)[i] == other;
                    assert(kept[i] == other);
                }
            }
        }
    }
}

/// The world: what the fleet carries, where it points, what is switched on
/// and calibrated, the images taken, and the numeric budgets.
#[derive(PartialOrd, PartialEq, Ord, Eq, Debug)]
pub struct SatelliteState {
    /// Satellite to the instruments it carries.
    pub onboard: Table<SatelliteEnum, Vec<SatelliteEnum>>,
    /// Instrument to the modes it supports.
    pub supports: Table<SatelliteEnum, Vec<SatelliteEnum>>,
    /// Satellite to the direction it points at.
    pub pointing: Table<SatelliteEnum, SatelliteEnum>,
    /// Satellite to whether its power is free for an instrument.
    pub power_avail: Table<SatelliteEnum, bool>,
    /// The instruments that are switched on.
    pub power_on: Vec<SatelliteEnum>,
    /// The instruments that are calibrated.
    pub calibrated: Vec<SatelliteEnum>,
    /// Direction to the mode in which an image of it was taken.
    pub have_image: Table<SatelliteEnum, SatelliteEnum>,
    /// Instrument to the direction at which it is calibrated.
    pub calibration_target: Table<SatelliteEnum, SatelliteEnum>,
    /// Satellite to the data it can still store.
    pub data_capacity: Table<SatelliteEnum, Quantity>,
    /// The data stored by all images taken.
    pub total_data_stored: Quantity,
    /// Direction and mode to the data that such an image takes.
    pub satellite_data_stored: Table<(SatelliteEnum, SatelliteEnum), Quantity>,
    /// Two directions to the fuel that a turn between them takes.
    pub slew_time: Table<(SatelliteEnum, SatelliteEnum), Quantity>,
    /// The fuel used by all turns made.
    pub fuel_used: Quantity,
    /// Satellite to the fuel it has left.
    pub fuel: Table<SatelliteEnum, Quantity>,
    pub status: SatelliteStatus,
    /// Whether turns are made without fuel accounting.
    pub strips: bool,
}

/// The world as the contracts see it.
pub struct StateView {
    pub onboard: Map<SatelliteEnum, Seq<SatelliteEnum>>,
    pub supports: Map<SatelliteEnum, Seq<SatelliteEnum>>,
    pub pointing: Map<SatelliteEnum, SatelliteEnum>,
    pub power_avail: Map<SatelliteEnum, bool>,
    pub power_on: Seq<SatelliteEnum>,
    pub calibrated: Seq<SatelliteEnum>,
    pub have_image: Map<SatelliteEnum, SatelliteEnum>,
    pub calibration_target: Map<SatelliteEnum, SatelliteEnum>,
    pub data_capacity: Map<SatelliteEnum, Quantity>,
    pub total_data_stored: Quantity,
    pub satellite_data_stored: Map<(SatelliteEnum, SatelliteEnum), Quantity>,
    pub slew_time: Map<(SatelliteEnum, SatelliteEnum), Quantity>,
    pub fuel_used: Quantity,
    pub fuel: Map<SatelliteEnum, Quantity>,
    pub status: SatelliteStatus,
    pub strips: bool,
}

impl View for SatelliteState {
    type V = StateView;

    open spec fn view(&self) -> StateView {
        StateView {
            onboard: self.onboard@,
            supports: self.supports@,
            pointing: self.pointing@,
            power_avail: self.power_avail@,
            power_on: self.power_on@,
            calibrated: self.calibrated@,
            have_image: self.have_image@,
            calibration_target: self.calibration_target@,
            data_capacity: self.data_capacity@,
            total_data_stored: self.total_data_stored,
            satellite_data_stored: self.satellite_data_stored@,
            slew_time: self.slew_time@,
            fuel_used: self.fuel_used,
            fuel: self.fuel@,
            status: self.status,
            strips: self.strips,
        }
    }
}

impl StateView {
    /// Whether `satellite` points at `direction`.
    pub open spec fn points_at(self, satellite: SatelliteEnum, direction: SatelliteEnum) -> bool {
        self.pointing.contains_key(satellite) && self.pointing[satellite] == direction
    }

    /// Whether `satellite` carries `instrument`.
    pub open spec fn carries(self, satellite: SatelliteEnum, instrument: SatelliteEnum) -> bool {
        self.onboard.contains_key(satellite) && self.onboard[satellite].contains(instrument)
    }

    /// Whether `instrument` supports `mode`.
    pub open spec fn supports_mode(self, instrument: SatelliteEnum, mode: SatelliteEnum) -> bool {
        self.supports.contains_key(instrument) && self.supports[instrument].contains(mode)
    }

    /// Whether `direction` is the calibration target of `instrument`.
    pub open spec fn calibrates_at(
        self,
        instrument: SatelliteEnum,
        direction: SatelliteEnum,
    ) -> bool {
        self.calibration_target.contains_key(instrument) && self.calibration_target[instrument]
            == direction
    }

    /// The data that an image of `direction` in `mode` takes: what the
    /// table says, and nothing where it is silent.
    pub open spec fn data_volume(self, direction: SatelliteEnum, mode: SatelliteEnum) -> Quantity {
        if self.satellite_data_stored.contains_key((direction, mode)) {
            self.satellite_data_stored[(direction, mode)]
        } else {
            Quantity { bits: 0 }
        }
    }

    /// Whether a turn of `satellite` from `previous` to `new` can be made:
    /// the satellite points at `previous`, the two directions differ, the
    /// slew time between them is known and, unless fuel is not accounted
    /// for, the satellite has that much fuel.
    pub open spec fn can_turn_to(
        self,
        satellite: SatelliteEnum,
        new: SatelliteEnum,
        previous: SatelliteEnum,
    ) -> bool {
        &&& self.points_at(satellite, previous)
        &&& new != previous
        &&& self.slew_time.contains_key((new, previous))
        &&& self.strips || {
            let slew = self.slew_time[(new, previous)];
            &&& self.fuel.contains_key(satellite)
            &&& self.fuel[satellite].bits >= slew.bits
            &&& self.fuel[satellite].can_sub(slew)
            &&& self.fuel_used.can_add(slew)
        }
    }

    /// The world after that turn.
    pub open spec fn after_turn_to(
        self,
        satellite: SatelliteEnum,
        new: SatelliteEnum,
        previous: SatelliteEnum,
    ) -> StateView {
        if self.strips {
            StateView { pointing: self.pointing.insert(satellite, new), ..self }
        } else {
            let slew = self.slew_time[(new, previous)];
            StateView {
                pointing: self.pointing.insert(satellite, new),
                fuel: self.fuel.insert(satellite, self.fuel[satellite].minus(slew)),
                fuel_used: self.fuel_used.plus(slew),
                ..self
            }
        }
    }

    /// Whether a turn finds the entries it looks up: once the satellite
    /// points at `previous` and the directions differ, the slew time and,
    /// where fuel is accounted for, the satellite's fuel.
    pub open spec fn turn_to_finds_entries(
        self,
        satellite: SatelliteEnum,
        new: SatelliteEnum,
        previous: SatelliteEnum,
    ) -> bool {
        self.points_at(satellite, previous) && new != previous ==> {
            &&& self.slew_time.contains_key((new, previous))
            &&& self.strips || self.fuel.contains_key(satellite)
        }
    }

    /// Whether `instrument` can be switched on: its satellite carries it
    /// and has power free.
    pub open spec fn can_switch_on(self, instrument: SatelliteEnum, satellite: SatelliteEnum) -> bool {
        &&& self.carries(satellite, instrument)
        &&& self.power_avail.contains_key(satellite)
        &&& self.power_avail[satellite]
    }

    /// The world after `instrument` was switched on: it is on and no longer
    /// calibrated, and the satellite's power is taken.
    pub open spec fn after_switch_on(
        self,
        instrument: SatelliteEnum,
        satellite: SatelliteEnum,
    ) -> StateView {
        StateView {
            power_on: self.power_on.push(instrument),
            calibrated: without(self.calibrated, instrument),
            power_avail: self.power_avail.insert(satellite, false),
            ..self
        }
    }

    /// Whether `instrument` can be switched off: its satellite carries it
    /// and it is on.
    pub open spec fn can_switch_off(
        self,
        instrument: SatelliteEnum,
        satellite: SatelliteEnum,
    ) -> bool {
        &&& self.carries(satellite, instrument)
        &&& self.power_on.contains(instrument)
    }

    /// The world after `instrument` was switched off: it is neither on nor
    /// calibrated, and the satellite's power is free.
    pub open spec fn after_switch_off(
        self,
        instrument: SatelliteEnum,
        satellite: SatelliteEnum,
    ) -> StateView {
        StateView {
            power_on: without(self.power_on, instrument),
            calibrated: without(self.calibrated, instrument),
            power_avail: self.power_avail.insert(satellite, true),
            ..self
        }
    }

    /// Whether `instrument` can be calibrated at `direction`: its satellite
    /// carries it and points at `direction`, which is the instrument's
    /// calibration target, and the instrument is on.
    pub open spec fn can_calibrate(
        self,
        satellite: SatelliteEnum,
        instrument: SatelliteEnum,
        direction: SatelliteEnum,
    ) -> bool {
        &&& self.carries(satellite, instrument)
        &&& self.calibrates_at(instrument, direction)
        &&& self.points_at(satellite, direction)
        &&& self.power_on.contains(instrument)
    }

    /// The world after that calibration.
    pub open spec fn after_calibrate(self, instrument: SatelliteEnum) -> StateView {
        StateView { calibrated: self.calibrated.push(instrument), ..self }
    }

    /// Whether an image of `direction` in `mode` can be taken: the
    /// instrument is calibrated, carried, on and supports the mode, the
    /// satellite points at the direction, and its data capacity covers the
    /// image. The new capacity and the new total must be quantities.
    pub open spec fn can_take_image(
        self,
        satellite: SatelliteEnum,
        direction: SatelliteEnum,
        instrument: SatelliteEnum,
        mode: SatelliteEnum,
    ) -> bool {
        let volume = self.data_volume(direction, mode);
        &&& self.data_capacity.contains_key(satellite)
        &&& self.calibrated.contains(instrument)
        &&& self.carries(satellite, instrument)
        &&& self.supports_mode(instrument, mode)
        &&& self.power_on.contains(instrument)
        &&& self.points_at(satellite, direction)
        &&& self.data_capacity[satellite].bits >= volume.bits
        &&& self.data_capacity[satellite].can_sub(volume)
        &&& self.total_data_stored.can_add(volume)
    }

    /// The world after that image: the capacity is down by the image's
    /// data, the total is up by it, and the image is on record.
    pub open spec fn after_take_image(
        self,
        satellite: SatelliteEnum,
        direction: SatelliteEnum,
        mode: SatelliteEnum,
    ) -> StateView {
        let volume = self.data_volume(direction, mode);
        StateView {
            data_capacity: self.data_capacity.insert(
                satellite,
                self.data_capacity[satellite].minus(volume),
            ),
            have_image: self.have_image.insert(direction, mode),
            total_data_stored: self.total_data_stored.plus(volume),
            ..self
        }
    }
}

impl Clone for SatelliteState {
    /// A copy of the world.
    fn clone(&self) -> (copy: Self)
        ensures
            copy@ == self@,
    {
        SatelliteState {
            onboard: self.onboard.clone(),
            supports: self.supports.clone(),
            pointing: self.pointing.clone(),
            power_avail: self.power_avail.clone(),
            power_on: self.power_on.duplicate(),
            calibrated: self.calibrated.duplicate(),
            have_image: self.have_image.clone(),
            calibration_target: self.calibration_target.clone(),
            data_capacity: self.data_capacity.clone(),
            total_data_stored: self.total_data_stored,
            satellite_data_stored: self.satellite_data_stored.clone(),
            slew_time: self.slew_time.clone(),
            fuel_used: self.fuel_used,
            fuel: self.fuel.clone(),
            status: self.status,
            strips: self.strips,
        }
    }
}

impl SatelliteState {
    /// A world from its tables. Fuel is accounted for.
    pub fn new(
        onboard: Table<SatelliteEnum, Vec<SatelliteEnum>>,
        supports: Table<SatelliteEnum, Vec<SatelliteEnum>>,
        pointing: Table<SatelliteEnum, SatelliteEnum>,
        power_avail: Table<SatelliteEnum, bool>,
        power_on: Vec<SatelliteEnum>,
        calibrated: Vec<SatelliteEnum>,
        have_image: Table<SatelliteEnum, SatelliteEnum>,
        calibration_target: Table<SatelliteEnum, SatelliteEnum>,
        data_capacity: Table<SatelliteEnum, Quantity>,
        total_data_stored: Quantity,
        satellite_data_stored: Table<(SatelliteEnum, SatelliteEnum), Quantity>,
        slew_time: Table<(SatelliteEnum, SatelliteEnum), Quantity>,
        fuel_used: Quantity,
        fuel: Table<SatelliteEnum, Quantity>,
    ) -> (state: Self)
        ensures
            state == (SatelliteState {
                onboard,
                supports,
                pointing,
                power_avail,
                power_on,
                calibrated,
                have_image,
                calibration_target,
                data_capacity,
                total_data_stored,
                satellite_data_stored,
                slew_time,
                fuel_used,
                fuel,
                status: SatelliteStatus::Done,
                strips: false,
            }),
    {
        SatelliteState {
            onboard,
            supports,
            pointing,
            power_avail,
            power_on,
            calibrated,
            have_image,
            calibration_target,
            data_capacity,
            total_data_stored,
            satellite_data_stored,
            slew_time,
            fuel_used,
            fuel,
            status: SatelliteStatus::Done,
            strips: false,
        }
    }

    /// Sets the data capacity of `satellite`.
    pub fn set_data_capacity(&mut self, satellite: SatelliteEnum, capacity: Quantity)
        ensures
            final(self)@ == (StateView {
                data_capacity: old(self)@.data_capacity.insert(satellite, capacity),
                ..old(self)@
            }),
    {
        self.data_capacity.insert(satellite, capacity);
    }

    /// Sets the total of the data stored.
    pub fn set_data_stored(&mut self, size: Quantity)
        ensures
            final(self)@ == (StateView { total_data_stored: size, ..old(self)@ }),
    {
        self.total_data_stored = size;
    }

    /// Sets the fuel that a turn from `b` to `a` takes.
    pub fn set_slew_time(&mut self, a: &SatelliteEnum, b: &SatelliteEnum, time: Quantity)
        ensures
            final(self)@ == (StateView {
                slew_time: old(self)@.slew_time.insert((*a, *b), time),
                ..old(self)@
            }),
    {
        self.slew_time.insert((*a, *b), time);
    }

    /// Sets the fuel of `satellite`.
    pub fn set_satellite_fuel(&mut self, satellite: &SatelliteEnum, capacity: Quantity)
        ensures
            final(self)@ == (StateView {
                fuel: old(self)@.fuel.insert(*satellite, capacity),
                ..old(self)@
            }),
    {
        self.fuel.insert(*satellite, capacity);
    }

    /// Sets the total of the fuel used.
    pub fn set_fuel_used(&mut self, fuel: Quantity)
        ensures
            final(self)@ == (StateView { fuel_used: fuel, ..old(self)@ }),
    {
        self.fuel_used = fuel;
    }

    /// Chooses whether turns are made without fuel accounting.
    pub fn set_strips(&mut self, strips: bool)
        ensures
            final(self)@ == (StateView { strips, ..old(self)@ }),
    {
        self.strips = strips;
    }

    /// Whether `satellite` points at `direction`.
    pub fn pointing_helper(&self, satellite: &SatelliteEnum, direction: &SatelliteEnum) -> (holds:
        bool)
        ensures
            holds == self@.points_at(*satellite, *direction),
    {
        match self.pointing.get(satellite) {
            Some(current) => *current == *direction,
            None => false,
        }
    }

    /// Whether `direction` is the calibration target of `instrument`.
    pub fn calibrate_helper(&self, instrument: &SatelliteEnum, direction: &SatelliteEnum) -> (holds:
        bool)
        ensures
            holds == self@.calibrates_at(*instrument, *direction),
    {
        match self.calibration_target.get(instrument) {
            Some(target) => *direction == *target,
            None => false,
        }
    }

    /// Whether `satellite` carries `instrument`.
    pub fn carries(&self, satellite: &SatelliteEnum, instrument: &SatelliteEnum) -> (holds: bool)
        ensures
            holds == self@.carries(*satellite, *instrument),
    {
        match self.onboard.get(satellite) {
            Some(instruments) => list_contains(instruments, instrument),
            None => false,
        }
    }

    /// Whether `instrument` supports `mode`.
    pub fn does_instrument_support_mode(
        &self,
        instrument: &SatelliteEnum,
        mode: &SatelliteEnum,
    ) -> (holds: bool)
        ensures
            holds == self@.supports_mode(*instrument, *mode),
    {
        match self.supports.get(instrument) {
            Some(modes) => list_contains(modes, mode),
            None => false,
        }
    }

    /// The data that an image of `direction` in `mode` takes.
    pub fn get_satellite_data_used(&self, direction: &SatelliteEnum, mode: &SatelliteEnum) -> (volume:
        Quantity)
        ensures
            volume == self@.data_volume(*direction, *mode),
    {
        match self.satellite_data_stored.get(&(*direction, *mode)) {
            Some(volume) => *volume,
            None => Quantity::zero(),
        }
    }

    /// Turns `satellite` from `previous_direction` to `new_direction`, if
    /// that can be done, and says whether it was. The turn takes the slew
    /// time between the two directions from the satellite's fuel and adds it
    /// to the fuel used. A turn that cannot be made changes nothing.
    pub fn turn_to(
        &mut self,
        satellite: &SatelliteEnum,
        new_direction: &SatelliteEnum,
        previous_direction: &SatelliteEnum,
    ) -> (turned: bool)
        ensures
            turned == old(self)@.can_turn_to(*satellite, *new_direction, *previous_direction),
            turned ==> final(self)@ == old(self)@.after_turn_to(
                *satellite,
                *new_direction,
                *previous_direction,
            ),
            !turned ==> *final(self) == *old(self),
    {
        if self.pointing_helper(satellite, previous_direction) && *new_direction
            != *previous_direction {
            match self.slew_time.get(&(*new_direction, *previous_direction)) {
                Some(time) => {
                    let slew_time = *time;
                    self.turn_to_helper(satellite, slew_time, new_direction, previous_direction)
                },
                None => false,
            }
        } else {
            false
        }
    }

    /// Makes a turn that takes `slew_time`, if the fuel allows it, and
    /// says whether it did: with fuel accounting the satellite needs that
    /// much fuel, and the fuel left and the fuel used must be quantities.
    pub fn turn_to_helper(
        &mut self,
        satellite: &SatelliteEnum,
        slew_time: Quantity,
        new_direction: &SatelliteEnum,
        previous_direction: &SatelliteEnum,
    ) -> (turned: bool)
        ensures
            turned == (old(self)@.strips || {
                &&& old(self)@.fuel.contains_key(*satellite)
                &&& old(self)@.fuel[*satellite].bits >= slew_time.bits
                &&& old(self)@.fuel[*satellite].can_sub(slew_time)
                &&& old(self)@.fuel_used.can_add(slew_time)
            }),
            turned && old(self)@.strips ==> final(self)@ == (StateView {
                pointing: old(self)@.pointing.insert(*satellite, *new_direction),
                ..old(self)@
            }),
            turned && !old(self)@.strips ==> final(self)@ == (StateView {
                pointing: old(self)@.pointing.insert(*satellite, *new_direction),
                fuel: old(self)@.fuel.insert(
                    *satellite,
                    old(self)@.fuel[*satellite].minus(slew_time),
                ),
                fuel_used: old(self)@.fuel_used.plus(slew_time),
                ..old(self)@
            }),
            !turned ==> *final(self) == *old(self),
    {
        if self.strips {
            self.pointing.insert(*satellite, *new_direction);
            return true;
        }
        let fuel = match self.fuel.get(satellite) {
            Some(fuel) => *fuel,
            None => {
                return false;
            },
        };
        if !fuel.at_least(slew_time) {
            return false;
        }
        let left = match fuel.checked_sub(slew_time) {
            Some(left) => left,
            None => {
                return false;
            },
        };
        let used = match self.fuel_used.checked_add(slew_time) {
            Some(used) => used,
            None => {
                return false;
            },
        };
        self.fuel.insert(*satellite, left);
        self.fuel_used = used;
        self.pointing.insert(*satellite, *new_direction);
        true
    }

    /// Switches `instrument` on, if `satellite` carries it and has power
    /// free, and says whether it did. The instrument loses its calibration.
    pub fn switch_on(&mut self, instrument: &SatelliteEnum, satellite: &SatelliteEnum) -> (switched:
        bool)
        ensures
            switched == old(self)@.can_switch_on(*instrument, *satellite),
            switched ==> final(self)@ == old(self)@.after_switch_on(*instrument, *satellite),
            switched ==> !final(self)@.calibrated.contains(*instrument),
            !switched ==> *final(self) == *old(self),
    {
        let free = match self.power_avail.get(satellite) {
            Some(free) => *free,
            None => false,
        };
        if !self.carries(satellite, instrument) || !free {
            return false;
        }
        self.power_on.push(*instrument);
        remove_all(&mut self.calibrated, instrument);
        self.power_avail.insert(*satellite, false);
        proof {
            lemma_without_contains(old(self)@.calibrated, *instrument);
        }
        true
    }

    /// Switches `instrument` off, if `satellite` carries it and it is on,
    /// and says whether it did. The instrument loses its calibration.
    pub fn switch_off(&mut self, instrument: &SatelliteEnum, satellite: &SatelliteEnum) -> (switched:
        bool)
        ensures
            switched == old(self)@.can_switch_off(*instrument, *satellite),
            switched ==> final(self)@ == old(self)@.after_switch_off(*instrument, *satellite),
            switched ==> !final(self)@.calibrated.contains(*instrument),
            switched ==> !final(self)@.power_on.contains(*instrument),
            !switched ==> *final(self) == *old(self),
    {
        if !self.carries(satellite, instrument) || !list_contains(&self.power_on, instrument) {
            return false;
        }
        remove_all(&mut self.power_on, instrument);
        remove_all(&mut self.calibrated, instrument);
        self.power_avail.insert(*satellite, true);
        proof {
            lemma_without_contains(old(self)@.calibrated, *instrument);
            lemma_without_contains(old(self)@.power_on, *instrument);
        }
        true
    }

    /// Calibrates `instrument` at `direction`, if that can be done, and
    /// says whether it was.
    pub fn calibrate(
        &mut self,
        satellite: &SatelliteEnum,
        instrument: &SatelliteEnum,
        direction: &SatelliteEnum,
    ) -> (calibrated: bool)
        ensures
            calibrated == old(self)@.can_calibrate(*satellite, *instrument, *direction),
            calibrated ==> final(self)@ == old(self)@.after_calibrate(*instrument),
            !calibrated ==> *final(self) == *old(self),
    {
        if self.carries(satellite, instrument) && self.calibrate_helper(instrument, direction)
            && self.pointing_helper(satellite, direction) && list_contains(
            &self.power_on,
            instrument,
        ) {
            self.calibrated.push(*instrument);
            true
        } else {
            false
        }
    }

    /// Takes an image of `direction` in `mode` with `instrument`, if that
    /// can be done, and says whether it was.
    pub fn take_image(
        &mut self,
        satellite: &SatelliteEnum,
        direction: SatelliteEnum,
        instrument: &SatelliteEnum,
        mode: &SatelliteEnum,
    ) -> (taken: bool)
        ensures
            taken == old(self)@.can_take_image(*satellite, direction, *instrument, *mode),
            taken ==> final(self)@ == old(self)@.after_take_image(*satellite, direction, *mode),
            !taken ==> *final(self) == *old(self),
    {
        let capacity = match self.data_capacity.get(satellite) {
            Some(capacity) => *capacity,
            None => {
                return false;
            },
        };
        let volume = self.get_satellite_data_used(&direction, mode);
        if !(list_contains(&self.calibrated, instrument) && self.carries(satellite, instrument)
            && self.does_instrument_support_mode(instrument, mode) && list_contains(
            &self.power_on,
            instrument,
        ) && self.pointing_helper(satellite, &direction) && capacity.at_least(volume)) {
            return false;
        }
        let left = match capacity.checked_sub(volume) {
            Some(left) => left,
            None => {
                return false;
            },
        };
        let total = match self.total_data_stored.checked_add(volume) {
            Some(total) => total,
            None => {
                return false;
            },
        };
        self.data_capacity.insert(*satellite, left);
        self.have_image.insert(direction, *mode);
        self.total_data_stored = total;
        true
    }
}

/// What a plan has to bring about: images of directions in given modes, and
/// satellites pointing at given directions.
#[derive(PartialOrd, PartialEq, Ord, Eq, Debug)]
pub struct SatelliteGoals {
    /// Direction to the mode in which an image of it is wanted.
    pub have_image: Table<SatelliteEnum, SatelliteEnum>,
    /// Satellite to the direction at which it shall point in the end.
    pub pointing: Table<SatelliteEnum, SatelliteEnum>,
    /// A fuel budget, for information only.
    pub fuel_used: Quantity,
}

/// A goal as the contracts see it.
pub struct GoalView {
    pub have_image: Map<SatelliteEnum, SatelliteEnum>,
    pub pointing: Map<SatelliteEnum, SatelliteEnum>,
    pub fuel_used: Quantity,
}

impl View for SatelliteGoals {
    type V = GoalView;

    open spec fn view(&self) -> GoalView {
        GoalView {
            have_image: self.have_image@,
            pointing: self.pointing@,
            fuel_used: self.fuel_used,
        }
    }
}

impl GoalView {
    /// Whether the state holds the image that the goal wants of `direction`.
    pub open spec fn image_met(self, state: StateView, direction: SatelliteEnum) -> bool {
        state.have_image.contains_key(direction) && state.have_image[direction]
            == self.have_image[direction]
    }

    /// Whether `satellite` points where the goal wants it to.
    pub open spec fn pointing_met(self, state: StateView, satellite: SatelliteEnum) -> bool {
        state.points_at(satellite, self.pointing[satellite])
    }

    /// Whether the state holds every image that the goal wants.
    pub open spec fn images_met(self, state: StateView) -> bool {
        forall|direction: SatelliteEnum| #[trigger]
            self.have_image.contains_key(direction) ==> self.image_met(state, direction)
    }

    /// Whether every satellite points where the goal wants it to.
    pub open spec fn pointings_met(self, state: StateView) -> bool {
        forall|satellite: SatelliteEnum| #[trigger]
            self.pointing.contains_key(satellite) ==> self.pointing_met(state, satellite)
    }

    /// Whether the state meets the goal: every wanted image is taken and
    /// every wanted pointing holds.
    pub open spec fn satisfied_by(self, state: StateView) -> bool {
        self.images_met(state) && self.pointings_met(state)
    }
}

impl Clone for SatelliteGoals {
    fn clone(&self) -> (copy: Self)
        ensures
            copy@ == self@,
    {
        SatelliteGoals {
            have_image: self.have_image.clone(),
            pointing: self.pointing.clone(),
            fuel_used: self.fuel_used,
        }
    }
}

impl SatelliteGoals {
    /// A goal from its tables.
    pub fn new(
        have_image: Table<SatelliteEnum, SatelliteEnum>,
        pointing: Table<SatelliteEnum, SatelliteEnum>,
        fuel_used: Quantity,
    ) -> (goal: Self)
        ensures
            goal == (SatelliteGoals { have_image, pointing, fuel_used }),
    {
        SatelliteGoals { have_image, pointing, fuel_used }
    }

    /// Whether the state holds every image that the goal wants.
    pub fn images_met_in(&self, state: &SatelliteState) -> (met: bool)
        ensures
            met == self@.images_met(state@),
    {
        let n = self.have_image.len();
        let mut i: usize = 0;
        while i < n
            invariant
                n == self.have_image.keys().len(),
                lists(self.have_image.keys(), self@.have_image.dom()),
                i <= n,
                forall|j: int|
                    0 <= j < i ==> self@.image_met(state@, #[trigger] self.have_image.keys()[j]),
            decreases n - i,
        {
            let direction = self.have_image.key_at(i);
            let wanted = self.have_image.value_at(i);
            let met = match state.have_image.get(&direction) {
                Some(mode) => *mode == *wanted,
                None => false,
            };
            if !met {
                return false;
            }
            i += 1;
        }
        true
    }

    /// Whether every satellite points where the goal wants it to.
    pub fn pointings_met_in(&self, state: &SatelliteState) -> (met: bool)
        ensures
            met == self@.pointings_met(state@),
    {
        let n = self.pointing.len();
        let mut i: usize = 0;
        while i < n
            invariant
                n == self.pointing.keys().len(),
                lists(self.pointing.keys(), self@.pointing.dom()),
                i <= n,
                forall|j: int|
                    0 <= j < i ==> self@.pointing_met(state@, #[trigger] self.pointing.keys()[j]),
            decreases n - i,
        {
            let satellite = self.pointing.key_at(i);
            let wanted = self.pointing.value_at(i);
            if !state.pointing_helper(&satellite, wanted) {
                return false;
            }
            i += 1;
        }
        true
    }

    /// Whether the state meets the goal.
    pub fn all_met_in(&self, state: &SatelliteState) -> (met: bool)
        ensures
            met == self@.satisfied_by(state@),
    {
        self.images_met_in(state) && self.pointings_met_in(state)
    }
}

/// A primitive action: one step of a plan.
#[derive(Copy, Debug, Ord, PartialOrd, Eq, PartialEq)]
pub enum SatelliteOperator<T> {
    /// Satellite, new direction, previous direction.
    TurnTo(T, T, T),
    /// Instrument, satellite.
    SwitchOn(T, T),
    /// Instrument, satellite.
    SwitchOff(T, T),
    /// Satellite, instrument, direction.
    Calibrate(T, T, T),
    /// Satellite, direction, instrument, mode.
    TakeImage(T, T, T, T),
}

/// The kind of a primitive action.
#[derive(Copy, Clone, Debug, Ord, PartialOrd, Eq, PartialEq, Structural)]
pub enum OperatorKind {
    TurnTo,
    SwitchOn,
    SwitchOff,
    Calibrate,
    TakeImage,
}

impl<T: Copy> Clone for SatelliteOperator<T> {
    fn clone(&self) -> (copy: Self)
        ensures
            copy == *self,
    {
        *self
    }
}

impl SatelliteOperator<SatelliteEnum> {
    /// Whether the operator can be applied in `state`.
    pub open spec fn enabled_in(self, state: StateView) -> bool {
        match self {
            SatelliteOperator::TurnTo(satellite, new, previous) => state.can_turn_to(
                satellite,
                new,
                previous,
            ),
            SatelliteOperator::SwitchOn(instrument, satellite) => state.can_switch_on(
                instrument,
                satellite,
            ),
            SatelliteOperator::SwitchOff(instrument, satellite) => state.can_switch_off(
                instrument,
                satellite,
            ),
            SatelliteOperator::Calibrate(satellite, instrument, direction) => state.can_calibrate(
                satellite,
                instrument,
                direction,
            ),
            SatelliteOperator::TakeImage(satellite, direction, instrument, mode) =>
                state.can_take_image(satellite, direction, instrument, mode),
        }
    }

    /// The state after the operator was applied in `state`, meaningful
    /// where `enabled_in` holds.
    pub open spec fn effect_on(self, state: StateView) -> StateView {
        match self {
            SatelliteOperator::TurnTo(satellite, new, previous) => state.after_turn_to(
                satellite,
                new,
                previous,
            ),
            SatelliteOperator::SwitchOn(instrument, satellite) => state.after_switch_on(
                instrument,
                satellite,
            ),
            SatelliteOperator::SwitchOff(instrument, satellite) => state.after_switch_off(
                instrument,
                satellite,
            ),
            SatelliteOperator::Calibrate(_, instrument, _) => state.after_calibrate(instrument),
            SatelliteOperator::TakeImage(satellite, direction, _, mode) => state.after_take_image(
                satellite,
                direction,
                mode,
            ),
        }
    }

    /// Whether the operator finds in `state` every entry that it looks up
    /// without a fallback: the instruments of its satellite, for a turn the
    /// slew time and the fuel, for an image the data capacity. A state that
    /// lacks one of them is malformed.
    pub open spec fn finds_entries_in(self, state: StateView) -> bool {
        match self {
            SatelliteOperator::TurnTo(satellite, new, previous) => state.turn_to_finds_entries(
                satellite,
                new,
                previous,
            ),
            SatelliteOperator::SwitchOn(_, satellite) => state.onboard.contains_key(satellite),
            SatelliteOperator::SwitchOff(_, satellite) => state.onboard.contains_key(satellite),
            SatelliteOperator::Calibrate(satellite, _, _) => state.onboard.contains_key(satellite),
            SatelliteOperator::TakeImage(satellite, _, _, _) => state.onboard.contains_key(
                satellite,
            ) && state.data_capacity.contains_key(satellite),
        }
    }

    /// The step as its kind and the objects it is about: satellite,
    /// instrument, direction and mode, each where the step has one. The
    /// direction of a turn is the one it turns to.
    pub fn as_tuple(&self) -> (parts: (
        OperatorKind,
        Option<SatelliteEnum>,
        Option<SatelliteEnum>,
        Option<SatelliteEnum>,
        Option<SatelliteEnum>,
    ))
        ensures
            parts == match *self {
                SatelliteOperator::TurnTo(satellite, new, _) => (
                    OperatorKind::TurnTo,
                    Some(satellite),
                    None,
                    Some(new),
                    None,
                ),
                SatelliteOperator::SwitchOn(instrument, satellite) => (
                    OperatorKind::SwitchOn,
                    Some(satellite),
                    Some(instrument),
                    None,
                    None,
                ),
                SatelliteOperator::SwitchOff(instrument, satellite) => (
                    OperatorKind::SwitchOff,
                    Some(satellite),
                    Some(instrument),
                    None,
                    None,
                ),
                SatelliteOperator::Calibrate(satellite, instrument, direction) => (
                    OperatorKind::Calibrate,
                    Some(satellite),
                    Some(instrument),
                    Some(direction),
                    None,
                ),
                SatelliteOperator::TakeImage(satellite, direction, instrument, mode) => (
                    OperatorKind::TakeImage,
                    Some(satellite),
                    Some(instrument),
                    Some(direction),
                    Some(mode),
                ),
            },
    {
        match *self {
            SatelliteOperator::TurnTo(satellite, new, _) => (
                OperatorKind::TurnTo,
                Some(satellite),
                None,
                Some(new),
                None,
            ),
            SatelliteOperator::SwitchOn(instrument, satellite) => (
                OperatorKind::SwitchOn,
                Some(satellite),
                Some(instrument),
                None,
                None,
            ),
            SatelliteOperator::SwitchOff(instrument, satellite) => (
                OperatorKind::SwitchOff,
                Some(satellite),
                Some(instrument),
                None,
                None,
            ),
            SatelliteOperator::Calibrate(satellite, instrument, direction) => (
                OperatorKind::Calibrate,
                Some(satellite),
                Some(instrument),
                Some(direction),
                None,
            ),
            SatelliteOperator::TakeImage(satellite, direction, instrument, mode) => (
                OperatorKind::TakeImage,
                Some(satellite),
                Some(instrument),
                Some(direction),
                Some(mode),
            ),
        }
    }

    /// The cost of the operator: every step costs one.
    pub fn cost(&self, _state: &SatelliteState, _goal: &SatelliteGoals) -> (cost: Quantity)
        ensures
            cost.bits == crate::quantity::UNITS_PER_ONE,
    {
        Quantity::one()
    }

    /// The cost of no step at all.
    pub fn zero_cost() -> (cost: Quantity)
        ensures
            cost.bits == 0,
    {
        Quantity::zero()
    }

    /// Applies the operator to `state` if it can be applied there, and
    /// says whether it was. An operator that cannot be applied changes
    /// nothing.
    pub fn attempt_update(&self, state: &mut SatelliteState) -> (applied: bool)
        ensures
            applied == self.enabled_in(old(state)@),
            applied ==> final(state)@ == self.effect_on(old(state)@),
            !applied ==> *final(state) == *old(state),
            old(state)@.well_formed() ==> final(state)@.well_formed(),
    {
        proof {
            if old(state)@.well_formed() && self.enabled_in(old(state)@) {
                crate::laws::lemma_step_keeps_state_well_formed(*self, old(state)@);
            }
        }
        match self {
            SatelliteOperator::TurnTo(satellite, new_direction, previous_direction) => state.turn_to(
                satellite,
                new_direction,
                previous_direction,
            ),
            SatelliteOperator::SwitchOn(instrument, satellite) => state.switch_on(
                instrument,
                satellite,
            ),
            SatelliteOperator::SwitchOff(instrument, satellite) => state.switch_off(
                instrument,
                satellite,
            ),
            SatelliteOperator::Calibrate(satellite, instrument, direction) => state.calibrate(
                satellite,
                instrument,
                direction,
            ),
            SatelliteOperator::TakeImage(satellite, direction, instrument, mode) => state.take_image(
                satellite,
                *direction,
                instrument,
                mode,
            ),
        }
    }

    /// Whether the operator finds in `state` every entry that it looks up
    /// without a fallback.
    pub fn lookups_present(&self, state: &SatelliteState) -> (present: bool)
        ensures
            present == self.finds_entries_in(state@),
    {
        match self {
            SatelliteOperator::TurnTo(satellite, new_direction, previous_direction) => {
                if state.pointing_helper(satellite, previous_direction) && *new_direction
                    != *previous_direction {
                    state.slew_time.contains_key(&(*new_direction, *previous_direction)) && (
                    state.strips || state.fuel.contains_key(satellite))
                } else {
                    true
                }
            },
            SatelliteOperator::SwitchOn(_, satellite) => state.onboard.contains_key(satellite),
            SatelliteOperator::SwitchOff(_, satellite) => state.onboard.contains_key(satellite),
            SatelliteOperator::Calibrate(satellite, _, _) => state.onboard.contains_key(satellite),
            SatelliteOperator::TakeImage(satellite, _, _, _) => state.onboard.contains_key(satellite)
                && state.data_capacity.contains_key(satellite),
        }
    }
}

/// The state in which a plan ends when its steps are applied to `state` one
/// after the other, or nothing if one of them cannot be applied.
pub open spec fn run(
    plan: Seq<SatelliteOperator<SatelliteEnum>>,
    state: StateView,
) -> Option<StateView>
    decreases plan.len(),
{
    if plan.len() == 0 {
        Some(state)
    } else if plan[0].enabled_in(state) {
        run(plan.skip(1), plan[0].effect_on(state))
    } else {
        None
    }
}

/// Whether `plan` leads from `start` to a state that meets `goal`: each step
/// can be applied where the steps before it lead, and the last state meets
/// the goal.
pub open spec fn valid_plan(
    plan: Seq<SatelliteOperator<SatelliteEnum>>,
    start: StateView,
    goal: GoalView,
) -> bool {
    match run(plan, start) {
        Some(end) => goal.satisfied_by(end),
        None => false,
    }
}

/// Whether `plan` leads from `start` to a state that meets `goal`.
pub fn is_satellite_valid(
    plan: &Vec<SatelliteOperator<SatelliteEnum>>,
    start: &SatelliteState,
    goal: &SatelliteGoals,
) -> (valid: bool)
    ensures
        valid == valid_plan(plan@, start@, goal@),
{
    let mut state = start.clone();
    let mut i: usize = 0;
    assert(plan@.skip(0) =~= plan@);
    while i < plan.len()
        invariant
            i <= plan@.len(),
            run(plan@, start@) == run(plan@.skip(i as int), state@),
        decreases plan@.len() - i,
    {
        let ghost rest = plan@.skip(i as int);
        assert(rest.skip(1) =~= plan@.skip(i + 1));
        if !plan[i].attempt_update(&mut state) {
            return false;
        }
        i += 1;
    }
    goal.all_met_in(&state)
}

} // verus!
