//! The table of people: its mathematical model and the store that holds it.
//!
//! The model, [`TableState`], is the sequence of rows in insertion order
//! together with the identifier that the next insertion will assign. The
//! store, [`PersonTable`], keeps the rows in memory and owns the counter.

use vstd::prelude::*;
use crate::person::{Person, PersonView, person_views};

verus! {

/// Why an insertion was refused.
#[derive(Clone, Copy, Debug, PartialEq, Eq)]
pub enum InsertError {
    /// Every identifier that the key column can hold has been assigned.
    AutoIncOverflow,
}

/// Mathematical model of the table.
pub struct TableState {
    /// The rows, oldest first.
    pub rows: Seq<PersonView>,
    /// The identifier that the next insertion assigns. One past the largest
    /// value of the key column once the sequence is used up.
    pub next_id: nat,
}

impl TableState {
    /// The table with no rows whose first identifier will be `first_id`.
    pub open spec fn starting_at(first_id: nat) -> TableState {
        TableState { rows: Seq::empty(), next_id: first_id }
    }

    /// The table as it is created: no rows, identifiers from 1.
    pub open spec fn empty() -> TableState {
        TableState::starting_at(1)
    }

    /// No identifier is left to assign.
    pub open spec fn exhausted(self) -> bool {
        self.next_id > u64::MAX
    }

    /// The table's invariant: identifiers were assigned in increasing order,
    /// and each lies below the one that comes next.
    pub open spec fn wf(self) -> bool {
        &&& self.next_id <= u64::MAX + 1
        &&& forall|i: int| 0 <= i < self.rows.len() ==> (#[trigger] self.rows[i]).id < self.next_id
        &&& forall|i: int, j: int|
            0 <= i < j < self.rows.len() ==> (#[trigger] self.rows[i]).id < (#[trigger] self.rows[j]).id
    }

    /// Some row carries the identifier `id`.
    pub open spec fn contains_id(self, id: nat) -> bool {
        exists|i: int| 0 <= i < self.rows.len() && (#[trigger] self.rows[i]).id == id
    }

    /// The row that an insertion of `name` and `age` stores.
    pub open spec fn new_row(self, name: Seq<char>, age: nat) -> PersonView {
        PersonView { id: self.next_id, name, age }
    }

    /// The table after one insertion of `name` and `age`: one more row at the
    /// end, carrying the next identifier. An exhausted table stays as it is.
    pub open spec fn insert(self, name: Seq<char>, age: nat) -> TableState {
        if self.exhausted() {
            self
        } else {
            TableState { rows: self.rows.push(self.new_row(name, age)), next_id: self.next_id + 1 }
        }
    }

    /// The table after inserting each entry of `entries` in turn.
    pub open spec fn insert_all(self, entries: Seq<(Seq<char>, nat)>) -> TableState
        decreases entries.len(),
    {
        if entries.len() == 0 {
            self
        } else {
            self.insert_all(entries.drop_last()).insert(entries.last().0, entries.last().1)
        }
    }
}

/// The table store: the rows in memory, and the counter that hands out
/// identifiers.
pub struct PersonTable {
    rows: Vec<Person>,
    /// The identifier for the next row; `None` once the last one is taken.
    next_id: Option<u64>,
}

impl View for PersonTable {
    type V = TableState;

    closed spec fn view(&self) -> TableState {
        TableState {
            rows: person_views(self.rows@),
            next_id: match self.next_id {
                Some(k) => k as nat,
                None => (u64::MAX + 1) as nat,
            },
        }
    }
}

impl PersonTable {
    /// The store's invariant is that of its model.
    pub open spec fn wf(&self) -> bool {
        self@.wf()
    }

    /// An empty table whose identifiers start at 1.
    pub fn new() -> (table: PersonTable)
        ensures
            table@ == TableState::empty(),
            table.wf(),
    {
        PersonTable::starting_at(1)
    }

    /// An empty table whose identifiers start at `first_id`.
    pub fn starting_at(first_id: u64) -> (table: PersonTable)
        ensures
            table@ == TableState::starting_at(first_id as nat),
            table.wf(),
    {
        let table = PersonTable { rows: Vec::new(), next_id: Some(first_id) };
        assert(table@.rows =~= Seq::<PersonView>::empty());
        table
    }

    /// The number of rows.
    pub fn count(&self) -> (n: usize)
        ensures
            n == self@.rows.len(),
    {
        self.rows.len()
    }

    /// The rows, oldest first.
    pub fn rows(&self) -> (rows: &[Person])
        ensures
            person_views(rows@) == self@.rows,
    {
        self.rows.as_slice()
    }

    /// Stores `row` under a fresh identifier and returns that identifier.
    ///
    /// The identifier in `row` is ignored. The insertion is refused, and the
    /// table left untouched, exactly when no identifier is left.
    pub fn insert(&mut self, row: Person) -> (result: Result<u64, InsertError>)
        ensures
            final(self)@ == old(self)@.insert(row.name@, row.age as nat),
            old(self).wf() ==> final(self).wf(),
            match result {
                Ok(id) => !old(self)@.exhausted() && id == old(self)@.next_id,
                Err(e) => old(self)@.exhausted() && e == InsertError::AutoIncOverflow
                    && *final(self) == *old(self),
            },
    {
        match self.next_id {
            None => Err(InsertError::AutoIncOverflow),
            Some(id) => {
                let ghost before = self.rows@;
                let stored = Person { id, name: row.name, age: row.age };
                self.rows.push(stored);
                self.next_id = if id == u64::MAX {
                    None
                } else {
                    Some(id + 1)
                };
                assert(person_views(self.rows@) =~= person_views(before).push(stored@));
                Ok(id)
            },
        }
    }

    /// Looks a row up by its identifier.
    ///
    /// Returns the oldest row that carries `id`, or `None` when no row does.
    /// In a table that meets its invariant at most one row carries it.
    pub fn find(&self, id: u64) -> (found: Option<&Person>)
        ensures
            found is Some <==> self@.contains_id(id as nat),
            match found {
                Some(p) => exists|i: int|
                    0 <= i < self@.rows.len() && #[trigger] self@.rows[i] == p@ && p.id == id
                        && forall|j: int| 0 <= j < i ==> (#[trigger] self@.rows[j]).id != id,
                None => true,
            },
    {
        let mut i: usize = 0;
        while i < self.rows.len()
            invariant
                i <= self.rows.len(),
                forall|j: int| 0 <= j < i ==> (#[trigger] self@.rows[j]).id != id,
            decreases self.rows.len() - i,
        {
            if self.rows[i].id == id {
                assert(self@.rows[i as int] == self.rows[i as int]@);
                return Some(&self.rows[i]);
            }
            i += 1;
        }
        None
    }
}

/// An insertion keeps the table's invariant.
pub proof fn lemma_insert_preserves_wf(s: TableState, name: Seq<char>, age: nat)
    requires
        s.wf(),
    ensures
        s.insert(name, age).wf(),
{
}

/// An insertion into a table that is not exhausted adds exactly one row: the
/// rows before it are unchanged, and the new last row holds the given name
/// and age under the identifier that was next.
pub proof fn lemma_insert_adds_one_row(s: TableState, name: Seq<char>, age: nat)
    requires
        !s.exhausted(),
    ensures
        s.insert(name, age).rows.len() == s.rows.len() + 1,
        s.insert(name, age).rows.drop_last() == s.rows,
        s.insert(name, age).rows.last() == (PersonView { id: s.next_id, name, age }),
{
    assert(s.insert(name, age).rows.drop_last() =~= s.rows);
}

/// In a table that meets its invariant no two rows share an identifier.
pub proof fn lemma_ids_distinct(s: TableState)
    requires
        s.wf(),
    ensures
        forall|i: int, j: int|
            0 <= i < s.rows.len() && 0 <= j < s.rows.len() && i != j
                ==> (#[trigger] s.rows[i]).id != (#[trigger] s.rows[j]).id,
{
    assert forall|i: int, j: int|
        0 <= i < s.rows.len() && 0 <= j < s.rows.len() && i != j
        implies (#[trigger] s.rows[i]).id != (#[trigger] s.rows[j]).id by {
        if i < j {
            assert(s.rows[i].id < s.rows[j].id);
        } else {
            assert(s.rows[j].id < s.rows[i].id);
        }
    }
}

/// The identifier that an insertion assigns was carried by no row before, and
/// is larger than every identifier assigned earlier.
pub proof fn lemma_inserted_id_is_fresh(s: TableState, name: Seq<char>, age: nat)
    requires
        s.wf(),
        !s.exhausted(),
    ensures
        !s.contains_id(s.insert(name, age).rows.last().id),
        forall|i: int| 0 <= i < s.rows.len() ==> (#[trigger] s.rows[i]).id < s.insert(name, age).rows.last().id,
{
}

/// Inserting the same name and age twice stores two rows that agree in name
/// and age and differ in their identifier.
pub proof fn lemma_duplicate_inserts_differ_in_id(s: TableState, name: Seq<char>, age: nat)
    requires
        s.wf(),
        s.next_id + 2 <= u64::MAX + 1,
    ensures
        ({
            let t = s.insert(name, age).insert(name, age);
            let n = s.rows.len() as int;
            &&& t.rows.len() == n + 2
            &&& t.rows.subrange(0, n) == s.rows
            &&& t.rows[n].name == name && t.rows[n + 1].name == name
            &&& t.rows[n].age == age && t.rows[n + 1].age == age
            &&& t.rows[n].id != t.rows[n + 1].id
        }),
{
    let t = s.insert(name, age).insert(name, age);
    assert(t.rows.subrange(0, s.rows.len() as int) =~= s.rows);
}

/// Any number of insertions, in any table with room for them, stores one row
/// per entry, in order, each with the name and age of its entry; the table
/// keeps its invariant, so all identifiers in it are pairwise distinct.
pub proof fn lemma_insert_all(s: TableState, entries: Seq<(Seq<char>, nat)>)
    requires
        s.wf(),
        s.next_id + entries.len() <= u64::MAX + 1,
    ensures
        ({
            let t = s.insert_all(entries);
            let n = s.rows.len() as int;
            &&& t.wf()
            &&& t.next_id == s.next_id + entries.len()
            &&& t.rows.len() == n + entries.len()
            &&& t.rows.subrange(0, n) == s.rows
            &&& forall|k: int|
                0 <= k < entries.len() ==> #[trigger] t.rows[n + k] == (PersonView {
                    id: (s.next_id + k) as nat,
                    name: entries[k].0,
                    age: entries[k].1,
                })
            &&& forall|i: int, j: int|
                0 <= i < t.rows.len() && 0 <= j < t.rows.len() && i != j
                    ==> (#[trigger] t.rows[i]).id != (#[trigger] t.rows[j]).id
        }),
    decreases entries.len(),
{
    let t = s.insert_all(entries);
    let n = s.rows.len() as int;
    if entries.len() == 0 {
        assert(t.rows.subrange(0, n) =~= s.rows);
    } else {
        let before = entries.drop_last();
        let u = s.insert_all(before);
        lemma_insert_all(s, before);
        assert(t == u.insert(entries.last().0, entries.last().1));
        assert(t.rows.subrange(0, n) =~= u.rows.subrange(0, n));
        assert forall|k: int| 0 <= k < entries.len() implies #[trigger] t.rows[n + k] == (PersonView {
            id: (s.next_id + k) as nat,
            name: entries[k].0,
            age: entries[k].1,
        }) by {
            if k < before.len() {
                assert(t.rows[n + k] == u.rows[n + k]);
                assert(before[k] == entries[k]);
            }
        }
    }
    lemma_ids_distinct(t);
}

} // verus!
