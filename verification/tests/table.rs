use person_registry::{InsertError, Person, PersonTable};

fn person(id: u64, name: &str, age: u32) -> Person {
    Person { id, name: name.to_string(), age }
}

#[test]
fn new_table_is_empty_and_starts_at_one() {
    let mut table = PersonTable::new();
    assert_eq!(table.count(), 0);
    assert!(table.rows().is_empty());
    assert_eq!(table.find(1), None);
    assert_eq!(table.insert(person(0, "Ada", 30)), Ok(1));
}

#[test]
fn insert_returns_the_assigned_identifier() {
    let mut table = PersonTable::new();
    assert_eq!(table.insert(person(0, "Ada", 30)), Ok(1));
    assert_eq!(table.insert(person(0, "Bob", 25)), Ok(2));
    assert_eq!(table.insert(person(0, "Cy", 7)), Ok(3));
    assert_eq!(table.count(), 3);
    assert_eq!(table.rows(), &[person(1, "Ada", 30), person(2, "Bob", 25), person(3, "Cy", 7)]);
}

#[test]
fn insert_ignores_the_identifier_in_the_row() {
    let mut table = PersonTable::new();
    assert_eq!(table.insert(person(99, "Ada", 30)), Ok(1));
    assert_eq!(table.insert(person(1, "Bob", 25)), Ok(2));
    assert_eq!(table.insert(person(u64::MAX, "Cy", 7)), Ok(3));
    assert_eq!(table.rows(), &[person(1, "Ada", 30), person(2, "Bob", 25), person(3, "Cy", 7)]);
}

#[test]
fn starting_at_sets_the_first_identifier() {
    let mut table = PersonTable::starting_at(40);
    assert_eq!(table.count(), 0);
    assert_eq!(table.insert(person(0, "a", 1)), Ok(40));
    assert_eq!(table.insert(person(0, "b", 2)), Ok(41));

    let mut from_zero = PersonTable::starting_at(0);
    assert_eq!(from_zero.insert(person(5, "z", 0)), Ok(0));
    assert_eq!(from_zero.insert(person(5, "z", 0)), Ok(1));
}

#[test]
fn insert_is_refused_once_the_last_identifier_is_taken() {
    let mut table = PersonTable::starting_at(u64::MAX - 1);
    assert_eq!(table.insert(person(0, "a", 1)), Ok(u64::MAX - 1));
    assert_eq!(table.insert(person(0, "b", 2)), Ok(u64::MAX));
    assert_eq!(table.insert(person(0, "c", 3)), Err(InsertError::AutoIncOverflow));
    assert_eq!(table.insert(person(0, "d", 4)), Err(InsertError::AutoIncOverflow));
    assert_eq!(table.count(), 2);
    assert_eq!(table.rows(), &[person(u64::MAX - 1, "a", 1), person(u64::MAX, "b", 2)]);
}

#[test]
fn find_returns_the_row_with_that_identifier() {
    let mut table = PersonTable::starting_at(10);
    for (name, age) in [("a", 1u32), ("b", 2), ("c", 3)] {
        assert!(table.insert(person(0, name, age)).is_ok());
    }
    assert_eq!(table.find(10), Some(&person(10, "a", 1)));
    assert_eq!(table.find(11), Some(&person(11, "b", 2)));
    assert_eq!(table.find(12), Some(&person(12, "c", 3)));
    assert_eq!(table.find(9), None);
    assert_eq!(table.find(13), None);
    assert_eq!(table.find(0), None);
}

#[test]
fn rows_keep_insertion_order() {
    let mut table = PersonTable::new();
    let names = ["delta", "alpha", "charlie", "bravo"];
    for name in names {
        assert!(table.insert(person(0, name, 1)).is_ok());
    }
    let stored: Vec<&str> = table.rows().iter().map(|p| p.name.as_str()).collect();
    assert_eq!(stored, names);
}
