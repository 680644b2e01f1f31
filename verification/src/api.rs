//! The records of a project's table.

use vstd::prelude::*;
use crate::error::Error;

verus! {

/// A persisted record. The store assigns `id` when the record is made.
#[derive(Clone, Debug, PartialEq)]
pub struct Entry {
    pub id: u32,
    pub title: String,
    pub body: String,
    pub published: bool,
}

/// What a record needs to be made: everything but the id.
#[derive(Clone, Debug)]
pub struct CreateEntry {
    pub title: String,
    pub body: String,
    pub published: bool,
}

/// One row of the table as it is read, before its id has been checked.
#[derive(Clone, Debug)]
pub struct Row {
    pub id: i64,
    pub title: String,
    pub body: String,
    pub published: bool,
}

/// An [`Entry`] as a mathematical value.
pub struct EntryView {
    pub id: nat,
    pub title: Seq<char>,
    pub body: Seq<char>,
    pub published: bool,
}

impl View for Entry {
    type V = EntryView;

    open spec fn view(&self) -> EntryView {
        EntryView {
            id: self.id as nat,
            title: self.title@,
            body: self.body@,
            published: self.published,
        }
    }
}

/// Whether a row id of the table is an entry id: it fits in 32 bits unsigned.
pub open spec fn is_entry_id(rowid: int) -> bool {
    0 <= rowid <= u32::MAX
}

/// Turns a row id of the table into an entry id. A row id outside the range of
/// entry ids is reported as `Io`.
pub fn entry_id(rowid: i64) -> (r: Result<u32, Error>)
    ensures
        is_entry_id(rowid as int) ==> r == Ok::<u32, Error>(rowid as u32),
        !is_entry_id(rowid as int) ==> r == Err::<u32, Error>(Error::Io),
{
    if 0 <= rowid && rowid <= 0xFFFF_FFFF {
        Ok(rowid as u32)
    } else {
        Err(Error::Io)
    }
}

impl Row {
    /// The entry that this row decodes to, where its id is an entry id.
    pub open spec fn decoded(&self) -> EntryView {
        EntryView {
            id: self.id as nat,
            title: self.title@,
            body: self.body@,
            published: self.published,
        }
    }

    /// Whether this row decodes to an entry.
    pub open spec fn decodes(&self) -> bool {
        is_entry_id(self.id as int)
    }
}

impl Entry {
    /// Decodes one row. The columns are taken as they are; the id must be an
    /// entry id, else the row is reported as `Io`.
    pub fn from_row(row: &Row) -> (r: Result<Entry, Error>)
        ensures
            row.decodes() ==> r is Ok && r->Ok_0@ == row.decoded(),
            !row.decodes() ==> r == Err::<Entry, Error>(Error::Io),
    {
        match entry_id(row.id) {
            Ok(id) => Ok(
                Entry {
                    id,
                    title: row.title.clone(),
                    body: row.body.clone(),
                    published: row.published,
                },
            ),
            Err(e) => Err(e),
        }
    }
}

} // verus!
