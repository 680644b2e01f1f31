//! The statements that a store runs on its table, with their parameters.
//!
//! The table is `entries`, with the columns `id`, `title`, `body` and
//! `published`. The application binds the parameters of a statement in their
//! order and runs it; it decides nothing about either.

use vstd::prelude::*;
use crate::api::CreateEntry;

verus! {

/// The statement that makes the one table of a new store. Its ids count up
/// from 1 and are never given twice, also after a delete.
pub const CREATE_TABLES: &'static str =
    "CREATE TABLE entries (id INTEGER PRIMARY KEY AUTOINCREMENT NOT NULL, title TEXT NOT NULL, body TEXT NOT NULL, published NOT NULL);";

/// The statement that adds an entry; its parameters are title, body and
/// published, in this order.
pub const INSERT_ENTRY: &'static str =
    "INSERT INTO entries (title, body, published) VALUES (?, ?, ?);";

/// The statement that removes the entry whose id is its parameter.
pub const DELETE_ENTRY: &'static str = "DELETE FROM entries WHERE id = ?";

/// The statement that fetches every entry.
pub const SELECT_ENTRIES: &'static str = "SELECT * FROM entries;";

/// The statement that fetches the entry whose id is its parameter.
pub const SELECT_ENTRY: &'static str = "SELECT * FROM entries WHERE id = ?;";

/// The column of the table that holds an entry's id.
pub const ID: &'static str = "id";

/// The column that holds an entry's title.
pub const TITLE: &'static str = "title";

/// The column that holds an entry's body.
pub const BODY: &'static str = "body";

/// The column that holds whether an entry is published.
pub const PUBLISHED: &'static str = "published";

/// One parameter of a statement.
#[derive(Clone, Debug, PartialEq)]
pub enum Param {
    Text(String),
    Flag(bool),
    Id(u32),
}

/// A [`Param`] as a mathematical value.
pub enum ParamView {
    Text(Seq<char>),
    Flag(bool),
    Id(u32),
}

impl View for Param {
    type V = ParamView;

    open spec fn view(&self) -> ParamView {
        match self {
            Param::Text(text) => ParamView::Text(text@),
            Param::Flag(flag) => ParamView::Flag(*flag),
            Param::Id(id) => ParamView::Id(*id),
        }
    }
}

/// A statement and the values of its parameters, in the order of its
/// question marks.
#[derive(Clone, Debug, PartialEq)]
pub struct Statement {
    pub text: &'static str,
    pub params: Vec<Param>,
}

impl Statement {
    /// Whether this is the statement `text` with the parameters `params`.
    pub open spec fn consists_of(&self, text: &'static str, params: Seq<ParamView>) -> bool {
        &&& self.text@ == text@
        &&& self.params@.len() == params.len()
        &&& forall|i: int| 0 <= i < params.len() ==> (#[trigger] self.params@[i])@ == params[i]
    }

    /// Makes the table of a new store.
    pub fn create_tables() -> (s: Statement)
        ensures
            s.consists_of(CREATE_TABLES, seq![]),
    {
        Statement { text: CREATE_TABLES, params: Vec::new() }
    }

    /// Adds an entry with the fields `e`; the table assigns its id.
    pub fn create_entry(e: CreateEntry) -> (s: Statement)
        ensures
            s.consists_of(
                INSERT_ENTRY,
                seq![
                    ParamView::Text(e.title@),
                    ParamView::Text(e.body@),
                    ParamView::Flag(e.published),
                ],
            ),
    {
        let mut params: Vec<Param> = Vec::new();
        params.push(Param::Text(e.title));
        params.push(Param::Text(e.body));
        params.push(Param::Flag(e.published));
        Statement { text: INSERT_ENTRY, params }
    }

    /// Removes the entry with the id `id`, if there is one.
    pub fn delete_entry(id: u32) -> (s: Statement)
        ensures
            s.consists_of(DELETE_ENTRY, seq![ParamView::Id(id)]),
    {
        let mut params: Vec<Param> = Vec::new();
        params.push(Param::Id(id));
        Statement { text: DELETE_ENTRY, params }
    }

    /// Fetches every entry.
    pub fn entries() -> (s: Statement)
        ensures
            s.consists_of(SELECT_ENTRIES, seq![]),
    {
        Statement { text: SELECT_ENTRIES, params: Vec::new() }
    }

    /// Fetches the entry with the id `id`.
    pub fn entry(id: u32) -> (s: Statement)
        ensures
            s.consists_of(SELECT_ENTRY, seq![ParamView::Id(id)]),
    {
        let mut params: Vec<Param> = Vec::new();
        params.push(Param::Id(id));
        Statement { text: SELECT_ENTRY, params }
    }
}

} // verus!
