//! The `Person` record and its mathematical value.

use vstd::prelude::*;

verus! {

/// The mathematical value of a [`Person`]: its identifier, the characters of
/// its name, and its age.
pub struct PersonView {
    pub id: nat,
    pub name: Seq<char>,
    pub age: nat,
}

/// One record of the table.
///
/// `id` is the primary key. A caller that hands a `Person` to the table fills
/// it with any value: the table assigns the identifier that is stored.
/// `name` and `age` are kept exactly as given; neither is restricted.
#[derive(Clone, Debug, PartialEq, Eq)]
pub struct Person {
    pub id: u64,
    pub name: String,
    pub age: u32,
}

impl View for Person {
    type V = PersonView;

    open spec fn view(&self) -> PersonView {
        PersonView { id: self.id as nat, name: self.name@, age: self.age as nat }
    }
}

/// The values of a sequence of records, in the same order.
pub open spec fn person_views(rows: Seq<Person>) -> Seq<PersonView> {
    rows.map_values(|p: Person| p@)
}

} // verus!
