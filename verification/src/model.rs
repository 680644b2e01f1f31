//! What the library takes its surroundings to be, and what follows.
//!
//! The root directory and the table of a store are not the library's: the
//! application reaches them and reports their answers. This module writes
//! down, as mathematical values, how a directory and a table that work
//! answer, and proves what the decisions of [`crate::dal`] then come to.
//! Nothing here runs.

use vstd::prelude::*;
use crate::api::{CreateEntry, EntryView, Row};
use crate::dal::{
    deletion_outcome, entries_outcome, entry_outcome, insertion_outcome, kept_after, listed,
    names_only, open_outcome, removal_outcome, Creating, Listed,
};
use crate::error::{Error, Failure};

verus! {

/// The answer of a root directory that holds the files named `files` to a
/// request to make the file of the project `name`, failing if it is there.
pub open spec fn create_new(files: Set<Seq<char>>, name: Seq<char>) -> Result<(), Failure> {
    if files.contains(name) {
        Err(Failure::AlreadyExists)
    } else {
        Ok(())
    }
}

/// The answer of a root directory that holds the files named `files` to a
/// request to remove the file of the project `name`.
pub open spec fn remove_file(files: Set<Seq<char>>, name: Seq<char>) -> Result<(), Failure> {
    if files.contains(name) {
        Ok(())
    } else {
        Err(Failure::NotFound)
    }
}

/// Whether `places` is a listing of a root directory that holds exactly the
/// files named `files`: every place holds a name, no name comes twice, and
/// the names are those of the files.
pub open spec fn lists(places: Seq<Listed>, files: Set<Seq<char>>) -> bool {
    &&& names_only(places, places.len() as int)
    &&& forall|i: int, j: int|
        0 <= i < j < places.len() ==> (#[trigger] places[i])->Name_0@ != (
        #[trigger] places[j])->Name_0@
    &&& forall|i: int| 0 <= i < places.len() ==> files.contains((#[trigger] places[i])->Name_0@)
    &&& forall|name: Seq<char>| #[trigger]
        files.contains(name) ==> exists|i: int|
            0 <= i < places.len() && (#[trigger] places[i])->Name_0@ == name
}

/// Creating a project whose file is not there goes through every step
/// and, with a connection that is made and a table that is made, ends with
/// the store, which is then kept. Creating it once more ends at the file
/// with `AlreadyExists`: no connection is asked for, and the store that is
/// kept is still the first. Here `path` is the path of the file of `name`.
pub proof fn lemma_second_creation_is_refused<C>(
    files: Set<Seq<char>>,
    cache: Map<Seq<char>, C>,
    name: Seq<char>,
    path: String,
    pool: C,
)
    requires
        !files.contains(name),
    ensures
        ({
            let first = Creating::<C>::file_step(path, create_new(files, name));
            let second = Creating::<C>::file_step(path, create_new(files.insert(name), name));
            &&& first == Creating::<C>::Connect(path)
            &&& Creating::connect_step(Ok::<C, Failure>(pool)) == Creating::Provision(pool)
            &&& Creating::provision_step(pool, Ok::<(), Failure>(())).outcome() == Ok::<C, Error>(
                pool,
            )
            &&& second.outcome() == Err::<C, Error>(Error::AlreadyExists)
            &&& kept_after(kept_after(cache, name, Ok::<C, Error>(pool)), name, second.outcome())
                == cache.insert(name, pool)
        }),
{
}

/// The listing of a directory to which the file of a project was added gives
/// every name, and that of the project exactly once.
pub proof fn lemma_created_project_is_listed_once(
    files: Set<Seq<char>>,
    name: Seq<char>,
    places: Seq<Listed>,
    r: Result<Vec<String>, Error>,
)
    requires
        lists(places, files.insert(name)),
        listed(places, r),
    ensures
        r is Ok,
        exists|i: int| 0 <= i < r->Ok_0@.len() && (#[trigger] r->Ok_0@[i])@ == name,
        forall|i: int, j: int|
            0 <= i < r->Ok_0@.len() && 0 <= j < r->Ok_0@.len() && (#[trigger] r->Ok_0@[i])@ == name
                && (#[trigger] r->Ok_0@[j])@ == name ==> i == j,
{
    lemma_listing_gives_every_name(places, r);
    assert(files.insert(name).contains(name));
    let k = choose|k: int| 0 <= k < places.len() && (#[trigger] places[k])->Name_0@ == name;
    assert(r->Ok_0@[k]@ == name);
    assert forall|i: int, j: int|
        0 <= i < r->Ok_0@.len() && 0 <= j < r->Ok_0@.len() && (#[trigger] r->Ok_0@[i])@ == name && (
        #[trigger] r->Ok_0@[j])@ == name implies i == j by {
        assert(places[i]->Name_0@ == name);
        assert(places[j]->Name_0@ == name);
    }
}

/// The listing of a directory from which the file of a project was removed
/// gives every name, and not that of the project.
pub proof fn lemma_deleted_project_is_not_listed(
    files: Set<Seq<char>>,
    name: Seq<char>,
    places: Seq<Listed>,
    r: Result<Vec<String>, Error>,
)
    requires
        lists(places, files.remove(name)),
        listed(places, r),
    ensures
        r is Ok,
        forall|i: int| 0 <= i < r->Ok_0@.len() ==> (#[trigger] r->Ok_0@[i])@ != name,
{
    lemma_listing_gives_every_name(places, r);
    assert forall|i: int| 0 <= i < r->Ok_0@.len() implies (#[trigger] r->Ok_0@[i])@ != name by {
        assert(files.remove(name).contains(places[i]->Name_0@));
    }
}

/// Removing the file of a project succeeds where the file is there, and is
/// `NotFound` where it is not, as for a project that was never created.
pub proof fn lemma_deletion_needs_the_file(files: Set<Seq<char>>, name: Seq<char>)
    ensures
        files.contains(name) ==> removal_outcome(remove_file(files, name)) == Ok::<(), Error>(()),
        !files.contains(name) ==> removal_outcome(remove_file(files, name)) == Err::<(), Error>(
            Error::NotFound,
        ),
{
}

/// A listing whose places all hold a name gives them all, in order.
pub proof fn lemma_listing_gives_every_name(places: Seq<Listed>, r: Result<Vec<String>, Error>)
    requires
        names_only(places, places.len() as int),
        listed(places, r),
    ensures
        r is Ok,
        r->Ok_0@.len() == places.len(),
        forall|i: int| 0 <= i < places.len() ==> (#[trigger] r->Ok_0@[i])@ == places[i]->Name_0@,
{
    if r is Err {
        let k = choose|k: int|
            0 <= k < places.len() && names_only(places, k) && (#[trigger] places[k]).error()
                == Some(r->Err_0);
        assert(places[k] is Name);
    }
}

/// Two lookups of one project that both found no store kept, and both had
/// their connection made: each gets the store of its own connection, and
/// the one that ends last is kept.
pub proof fn lemma_two_opens_of_one_project<C>(
    cache: Map<Seq<char>, C>,
    name: Seq<char>,
    first: C,
    second: C,
)
    ensures
        open_outcome(Ok::<C, Failure>(first)) == Ok::<C, Error>(first),
        open_outcome(Ok::<C, Failure>(second)) == Ok::<C, Error>(second),
        kept_after(
            kept_after(cache, name, open_outcome(Ok::<C, Failure>(first))),
            name,
            open_outcome(Ok::<C, Failure>(second)),
        ) == cache.insert(name, second),
{
    assert(cache.insert(name, first).insert(name, second) =~= cache.insert(name, second));
}

/// The table of a store: its rows in the order of storage, and the largest
/// id that it has given out.
pub struct Table {
    pub rows: Seq<Row>,
    pub last: int,
}

impl Table {
    /// The table of a store that was just created.
    pub open spec fn fresh() -> Table {
        Table { rows: Seq::empty(), last: 0 }
    }

    /// The row that an insert of `fields` adds.
    pub open spec fn next_row(self, fields: CreateEntry) -> Row {
        Row {
            id: (self.last + 1) as i64,
            title: fields.title,
            body: fields.body,
            published: fields.published,
        }
    }

    /// The table after an insert of `fields`.
    pub open spec fn insert(self, fields: CreateEntry) -> Table {
        Table { rows: self.rows.push(self.next_row(fields)), last: self.last + 1 }
    }

    /// The answer to an insert: the row id of the new row.
    pub open spec fn inserted(self) -> Result<i64, Failure> {
        Ok((self.last + 1) as i64)
    }

    /// The table after a delete of `id`.
    pub open spec fn delete(self, id: u32) -> Table {
        Table { rows: self.rows.filter(|row: Row| row.id != id), last: self.last }
    }

    /// The answer to a delete of `id`: how many rows it removed.
    pub open spec fn deleted(self, id: u32) -> Result<u64, Failure> {
        Ok((self.rows.len() - self.delete(id).rows.len()) as u64)
    }

    /// The answer to a fetch of all rows.
    pub open spec fn select_all(self) -> Result<Seq<Row>, Failure> {
        Ok(self.rows)
    }

    /// Whether place `i` holds the row with `id`.
    pub open spec fn at(self, id: u32, i: int) -> bool {
        0 <= i < self.rows.len() && self.rows[i].id == id
    }

    /// The answer to a fetch of the row with `id`.
    pub open spec fn select(self, id: u32) -> Result<Option<Row>, Failure> {
        if exists|i: int| self.at(id, i) {
            Ok(Some(self.rows[choose|i: int| self.at(id, i)]))
        } else {
            Ok(None)
        }
    }
}

/// The entry that a store holds once it gave `id` to `fields`.
pub open spec fn entry_of(id: nat, fields: CreateEntry) -> EntryView {
    EntryView { id, title: fields.title@, body: fields.body@, published: fields.published }
}

/// A store that was just created has no entries.
pub proof fn lemma_fresh_store_is_empty()
    ensures
        entries_outcome(Table::fresh().select_all()) == Ok::<Seq<EntryView>, Error>(Seq::empty()),
{
    assert(Seq::new(0, |i: int| Table::fresh().rows[i].decoded()) =~= Seq::<EntryView>::empty());
}

/// The first entry of a new store gets the id 1; asked for by that id, or
/// for all entries, the store gives back exactly what was put in; once the
/// entry is deleted the store is empty again.
pub proof fn lemma_round_trip(fields: CreateEntry)
    ensures
        ({
            let one = Table::fresh().insert(fields);
            let none = one.delete(1);
            &&& insertion_outcome(Table::fresh().inserted()) == Ok::<u32, Error>(1)
            &&& entry_outcome(one.select(1)) == Ok::<EntryView, Error>(entry_of(1, fields))
            &&& entries_outcome(one.select_all()) == Ok::<Seq<EntryView>, Error>(
                seq![entry_of(1, fields)],
            )
            &&& deletion_outcome(one.deleted(1)) == Ok::<(), Error>(())
            &&& entries_outcome(none.select_all()) == Ok::<Seq<EntryView>, Error>(Seq::empty())
        }),
{
    let one = Table::fresh().insert(fields);
    let row = Table::fresh().next_row(fields);
    assert(one.rows =~= seq![row]);
    assert(one.at(1, 0));
    let i = choose|i: int| one.at(1, i);
    assert(i == 0);
    assert(row.decoded() == entry_of(1, fields));
    assert(Seq::new(one.rows.len(), |i: int| one.rows[i].decoded()) =~= seq![entry_of(1, fields)]);
    let none = one.delete(1);
    reveal_with_fuel(Seq::filter, 2);
    assert(one.rows.drop_last() =~= Seq::<Row>::empty());
    assert(none.rows =~= Seq::<Row>::empty());
    assert(Seq::new(none.rows.len(), |i: int| none.rows[i].decoded()) =~= Seq::<
        EntryView,
    >::empty());
}

/// Deleting an id is a success whatever the table holds, also where no row
/// has that id, as after a first delete of it.
pub proof fn lemma_delete_never_fails(table: Table, id: u32)
    ensures
        deletion_outcome(table.deleted(id)) == Ok::<(), Error>(()),
        deletion_outcome(table.delete(id).deleted(id)) == Ok::<(), Error>(()),
{
}

/// Every insert gets the id that follows the last one given, whatever was
/// deleted meanwhile.
pub proof fn lemma_ids_count_up(table: Table, fields: CreateEntry, id: u32)
    requires
        0 <= table.last < u32::MAX,
    ensures
        insertion_outcome(table.inserted()) == Ok::<u32, Error>((table.last + 1) as u32),
        table.insert(fields).last == table.last + 1,
        table.delete(id).last == table.last,
{
}

/// The first three entries of a new store get the ids 1, 2 and 3, in the
/// order in which they are made.
pub proof fn lemma_first_ids(first: CreateEntry, second: CreateEntry)
    ensures
        ({
            let none = Table::fresh();
            let one = none.insert(first);
            let two = one.insert(second);
            &&& insertion_outcome(none.inserted()) == Ok::<u32, Error>(1)
            &&& insertion_outcome(one.inserted()) == Ok::<u32, Error>(2)
            &&& insertion_outcome(two.inserted()) == Ok::<u32, Error>(3)
        }),
{
}

} // verus!
