use satellite_planner::operators::SatelliteEnum;
use satellite_planner::quantity::Quantity;
use satellite_planner::table::{Entry, Key, Table};

fn q(n: i64) -> Quantity {
    Quantity::from_bits(n)
}

#[test]
fn a_new_table_is_empty() {
    let table: Table<SatelliteEnum, bool> = Table::new();
    assert_eq!(table.len(), 0);
    assert_eq!(table.get(&SatelliteEnum::Mode(q(1))), None);
    assert!(!table.contains_key(&SatelliteEnum::Mode(q(1))));
}

#[test]
fn insert_then_get() {
    let mut table = Table::new();
    table.insert(SatelliteEnum::Satellite(q(3)), true);
    table.insert(SatelliteEnum::Satellite(q(1)), false);
    assert_eq!(table.len(), 2);
    assert_eq!(table.get(&SatelliteEnum::Satellite(q(3))), Some(&true));
    assert_eq!(table.get(&SatelliteEnum::Satellite(q(1))), Some(&false));
    assert_eq!(table.get(&SatelliteEnum::Satellite(q(2))), None);
    assert_eq!(table.get(&SatelliteEnum::Instrument(q(3))), None);
    assert!(table.contains_key(&SatelliteEnum::Satellite(q(1))));
}

#[test]
fn insert_replaces_the_value_under_a_key() {
    let mut table = Table::new();
    table.insert(SatelliteEnum::Direction(q(5)), q(1));
    table.insert(SatelliteEnum::Direction(q(5)), q(2));
    assert_eq!(table.len(), 1);
    assert_eq!(table.get(&SatelliteEnum::Direction(q(5))), Some(&q(2)));
}

#[test]
fn keys_come_out_in_increasing_order() {
    let mut table = Table::new();
    let keys = [
        SatelliteEnum::Direction(q(-4)),
        SatelliteEnum::Mode(q(9)),
        SatelliteEnum::Instrument(q(7)),
        SatelliteEnum::Satellite(q(0)),
        SatelliteEnum::Instrument(q(-7)),
        SatelliteEnum::Direction(q(i64::MIN)),
        SatelliteEnum::Instrument(q(i64::MAX)),
    ];
    for (i, key) in keys.iter().enumerate() {
        table.insert(*key, q(i as i64));
    }
    let mut sorted = keys.to_vec();
    sorted.sort();
    assert_eq!(table.len(), keys.len());
    for (i, key) in sorted.iter().enumerate() {
        assert_eq!(table.key_at(i), *key);
        assert_eq!(table.get(key), Some(table.value_at(i)));
    }
    assert_eq!(table.key_at(0), SatelliteEnum::Instrument(q(-7)));
    assert_eq!(table.key_at(6), SatelliteEnum::Direction(q(-4)));
}

#[test]
fn precedes_is_the_derived_order() {
    let keys = [
        SatelliteEnum::Instrument(q(2)),
        SatelliteEnum::Instrument(q(-2)),
        SatelliteEnum::Satellite(q(1)),
        SatelliteEnum::Mode(q(0)),
        SatelliteEnum::Direction(q(i64::MIN)),
        SatelliteEnum::Direction(q(i64::MAX)),
    ];
    for a in keys.iter() {
        for b in keys.iter() {
            assert_eq!(a.precedes(b), a < b);
            assert_eq!((*a, *b).precedes(&(*b, *a)), (*a, *b) < (*b, *a));
        }
    }
}

#[test]
fn pairs_are_ordered_by_the_first_member_then_the_second() {
    let mut table = Table::new();
    let d = |n: i64| SatelliteEnum::Direction(q(n));
    table.insert((d(2), d(1)), q(21));
    table.insert((d(1), d(2)), q(12));
    table.insert((d(1), d(1)), q(11));
    assert_eq!(table.key_at(0), (d(1), d(1)));
    assert_eq!(table.key_at(1), (d(1), d(2)));
    assert_eq!(table.key_at(2), (d(2), d(1)));
    assert_eq!(table.get(&(d(1), d(2))), Some(&q(12)));
    assert_eq!(table.get(&(d(2), d(2))), None);
}

#[test]
fn a_duplicate_is_equal_and_independent() {
    let mut table = Table::new();
    table.insert(SatelliteEnum::Satellite(q(1)), vec![SatelliteEnum::Instrument(q(2))]);
    let copy = table.clone();
    assert_eq!(copy, table);
    table.insert(SatelliteEnum::Satellite(q(1)), vec![]);
    assert_ne!(copy, table);
    assert_eq!(copy.get(&SatelliteEnum::Satellite(q(1))), Some(&vec![SatelliteEnum::Instrument(q(2))]));
    assert_eq!(vec![SatelliteEnum::Mode(q(4))].duplicate(), vec![SatelliteEnum::Mode(q(4))]);
    assert!(true.duplicate());
}
