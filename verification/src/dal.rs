//! The catalogue of projects and the store of one project.
//!
//! The application owns the root directory and the connections. It performs
//! each piece of outside work and hands the outcome to the function of the
//! same name here, which decides what the caller gets and what the catalogue
//! remembers.

use vstd::prelude::*;
use crate::api::{entry_id, is_entry_id, Entry, EntryView, Row};
use crate::error::{Error, Failure};

verus! {

/// How many connections the pool of one store may hold: the file allows one
/// writer.
pub const MAX_CONNECTIONS: u32 = 1;

/// The open store of one project. `C` is the application's connection pool; a
/// `Project` exists only for a pool that was connected.
#[derive(Clone, Debug)]
pub struct Project<C> {
    pool: C,
}

impl<C> View for Project<C> {
    type V = C;

    closed spec fn view(&self) -> C {
        self.pool
    }
}

/// The creation of one project, step by step. Each step but the last is
/// a piece of outside work that the application performs; it hands the
/// answer to the function of that step, which gives the next step.
pub enum Creating<C> {
    /// Make the backing file at this path, failing if it is there; then
    /// [`Creating::after_file`].
    MakeFile(String),
    /// Connect to the file at this path; then [`Creating::after_connect`].
    Connect(String),
    /// Run the statement that makes the table on this pool; then
    /// [`Creating::after_provision`].
    Provision(C),
    /// Nothing is left to do: the creation has made a store, or has failed.
    /// This step goes to [`DAL::create_project`].
    Done(Result<C, Error>),
}

impl<C> Creating<C> {
    /// What a creation that is at this step has come to: the outcome of a
    /// creation that is done, and `Io` for one that was left before its end.
    pub open spec fn outcome(self) -> Result<C, Error> {
        match self {
            Creating::Done(outcome) => outcome,
            _ => Err(Error::Io),
        }
    }

    /// The step after the file at `path` was asked to be made. A file that
    /// was in the way ends the creation with `AlreadyExists`, any other
    /// failure with `Io`: no connection is asked for.
    pub open spec fn file_step(path: String, made: Result<(), Failure>) -> Creating<C> {
        match made {
            Ok(()) => Creating::Connect(path),
            Err(f) => Creating::Done(Err(f.creation_error())),
        }
    }

    /// The step after a connection was asked for. A refused connection ends
    /// the creation as it ends an opening.
    pub open spec fn connect_step(connected: Result<C, Failure>) -> Creating<C> {
        match connected {
            Ok(pool) => Creating::Provision(pool),
            Err(f) => Creating::Done(Err(f.lookup_error())),
        }
    }

    /// The step after the table was asked to be made on `pool`: the end,
    /// with the pool, or with `Io` where the statement failed.
    pub open spec fn provision_step(pool: C, executed: Result<(), Failure>) -> Creating<C> {
        match executed {
            Ok(()) => Creating::Done(Ok(pool)),
            Err(_) => Creating::Done(Err(Error::Io)),
        }
    }

    /// The first step of a creation whose file was located: to make the
    /// file at that path. Where there is no path there is no creation, and
    /// the error is handed on.
    pub fn begin(located: Result<String, Error>) -> (r: Result<Self, Error>)
        ensures
            match located {
                Ok(path) => r is Ok && r->Ok_0 == Creating::<C>::MakeFile(path),
                Err(e) => r is Err && r->Err_0 == e,
            },
    {
        match located {
            Ok(path) => Ok(Creating::MakeFile(path)),
            Err(e) => Err(e),
        }
    }

    /// Computes [`Creating::file_step`].
    pub fn after_file(path: String, made: Result<(), Failure>) -> (next: Self)
        ensures
            next == Self::file_step(path, made),
    {
        match made {
            Ok(()) => Creating::Connect(path),
            Err(f) => Creating::Done(Err(f.on_creation())),
        }
    }

    /// Computes [`Creating::connect_step`].
    pub fn after_connect(connected: Result<C, Failure>) -> (next: Self)
        ensures
            next == Self::connect_step(connected),
    {
        match connected {
            Ok(pool) => Creating::Provision(pool),
            Err(f) => Creating::Done(Err(f.on_lookup())),
        }
    }

    /// Computes [`Creating::provision_step`].
    pub fn after_provision(pool: C, executed: Result<(), Failure>) -> (next: Self)
        ensures
            next == Self::provision_step(pool, executed),
    {
        match executed {
            Ok(()) => Creating::Done(Ok(pool)),
            Err(_) => Creating::Done(Err(Error::Io)),
        }
    }
}

/// What [`Project::open`] makes of the answer to a connection request.
pub open spec fn open_outcome<C>(connected: Result<C, Failure>) -> Result<C, Error> {
    match connected {
        Ok(pool) => Ok(pool),
        Err(f) => Err(f.lookup_error()),
    }
}

/// What [`Project::create_entry`] makes of the answer to an insert, which on
/// success is the row id of the new row.
pub open spec fn insertion_outcome(inserted: Result<i64, Failure>) -> Result<u32, Error> {
    match inserted {
        Ok(rowid) => if is_entry_id(rowid as int) {
            Ok(rowid as u32)
        } else {
            Err(Error::Io)
        },
        Err(_) => Err(Error::Io),
    }
}

/// What [`Project::delete_entry`] makes of the answer to a delete, which on
/// success is the number of rows removed.
pub open spec fn deletion_outcome(deleted: Result<u64, Failure>) -> Result<(), Error> {
    match deleted {
        Ok(_) => Ok(()),
        Err(_) => Err(Error::Io),
    }
}

/// Whether every row decodes.
pub open spec fn all_decode(rows: Seq<Row>) -> bool {
    forall|i: int| 0 <= i < rows.len() ==> (#[trigger] rows[i]).decodes()
}

/// What [`Project::entries`] makes of the rows that were fetched.
pub open spec fn entries_outcome(fetched: Result<Seq<Row>, Failure>) -> Result<
    Seq<EntryView>,
    Error,
> {
    match fetched {
        Ok(rows) => if all_decode(rows) {
            Ok(Seq::new(rows.len(), |i: int| rows[i].decoded()))
        } else {
            Err(Error::Io)
        },
        Err(_) => Err(Error::Io),
    }
}

/// What [`Project::entry`] makes of the row that was fetched, if one was.
pub open spec fn entry_outcome(fetched: Result<Option<Row>, Failure>) -> Result<EntryView, Error> {
    match fetched {
        Ok(Some(row)) => if row.decodes() {
            Ok(row.decoded())
        } else {
            Err(Error::Io)
        },
        Ok(None) => Err(Error::NotFound),
        Err(f) => Err(f.lookup_error()),
    }
}

/// The rows of a fetch as a sequence.
pub open spec fn rows_of(fetched: Result<Vec<Row>, Failure>) -> Result<Seq<Row>, Failure> {
    match fetched {
        Ok(rows) => Ok(rows@),
        Err(f) => Err(f),
    }
}

/// The entries of `found` as mathematical values.
pub open spec fn views(found: Vec<Entry>) -> Seq<EntryView> {
    Seq::new(found@.len(), |i: int| found@[i]@)
}

/// Decodes rows in their order, all or none.
fn decode_rows(rows: &Vec<Row>) -> (r: Result<Vec<Entry>, Error>)
    ensures
        match entries_outcome(Ok(rows@)) {
            Ok(entries) => r is Ok && views(r->Ok_0) == entries,
            Err(e) => r is Err && r->Err_0 == e,
        },
{
    let mut out: Vec<Entry> = Vec::new();
    let mut i: usize = 0;
    while i < rows.len()
        invariant
            i <= rows@.len(),
            out@.len() == i,
            forall|j: int| 0 <= j < i ==> (#[trigger] rows@[j]).decodes(),
            forall|j: int| 0 <= j < i ==> (#[trigger] out@[j])@ == rows@[j].decoded(),
        decreases rows@.len() - i,
    {
        match Entry::from_row(&rows[i]) {
            Ok(e) => out.push(e),
            Err(e) => {
                assert(!rows@[i as int].decodes());
                return Err(e);
            },
        }
        i += 1;
    }
    assert(views(out) =~= Seq::new(rows@.len(), |i: int| rows@[i].decoded()));
    Ok(out)
}

impl<C> Project<C> {
    /// The store of a file that was asked to be opened. A refused connection
    /// gives no store: `NotFound` where the file is missing, else `Io`.
    pub fn open(connected: Result<C, Failure>) -> (r: Result<Self, Error>)
        ensures
            match open_outcome(connected) {
                Ok(pool) => r is Ok && r->Ok_0@ == pool,
                Err(e) => r is Err && r->Err_0 == e,
            },
    {
        match connected {
            Ok(pool) => Ok(Project { pool }),
            Err(f) => Err(f.on_lookup()),
        }
    }

    /// The connection pool to run this store's statements on.
    pub fn pool(&self) -> (pool: &C)
        ensures
            *pool == self@,
    {
        &self.pool
    }

    /// The id of the entry that an insert made, from the row id that the
    /// table reported. A failed insert, or a row id that is no entry id, is
    /// `Io`.
    pub fn create_entry(&self, inserted: Result<i64, Failure>) -> (r: Result<u32, Error>)
        ensures
            r == insertion_outcome(inserted),
    {
        match inserted {
            Ok(rowid) => entry_id(rowid),
            Err(_) => Err(Error::Io),
        }
    }

    /// Judges a delete, given how many rows it removed. Removing nothing is a
    /// success: only a failed statement is an error, `Io`.
    pub fn delete_entry(&self, deleted: Result<u64, Failure>) -> (r: Result<(), Error>)
        ensures
            r == deletion_outcome(deleted),
    {
        match deleted {
            Ok(_) => Ok(()),
            Err(_) => Err(Error::Io),
        }
    }

    /// All entries, in the order of the rows that were fetched. A failed
    /// fetch, or a row that does not decode, fails the whole call with `Io`.
    pub fn entries(&self, fetched: Result<Vec<Row>, Failure>) -> (r: Result<Vec<Entry>, Error>)
        ensures
            match entries_outcome(rows_of(fetched)) {
                Ok(entries) => r is Ok && views(r->Ok_0) == entries,
                Err(e) => r is Err && r->Err_0 == e,
            },
    {
        match fetched {
            Err(_) => Err(Error::Io),
            Ok(rows) => decode_rows(&rows),
        }
    }

    /// The one entry that was asked for by id. No row, or a fetch that found
    /// none, is `NotFound`; any other failure, or a row that does not decode,
    /// is `Io`.
    pub fn entry(&self, fetched: Result<Option<Row>, Failure>) -> (r: Result<Entry, Error>)
        ensures
            match entry_outcome(fetched) {
                Ok(entry) => r is Ok && r->Ok_0@ == entry,
                Err(e) => r is Err && r->Err_0 == e,
            },
    {
        match fetched {
            Ok(Some(row)) => Entry::from_row(&row),
            Ok(None) => Err(Error::NotFound),
            Err(f) => Err(f.on_lookup()),
        }
    }
}

/// How the store of a project is had.
pub enum Lookup<'a, C> {
    /// It is kept: here it is.
    Kept(&'a Project<C>),
    /// It is not kept. The application asks for a connection to the file at
    /// this path and hands the answer to [`DAL::project`].
    Open(String),
}

/// What the listing of the root directory holds at one place.
#[derive(Clone, Debug)]
pub enum Listed {
    /// A file name that is valid UTF-8.
    Name(String),
    /// A file name that is not.
    NotUtf8,
    /// The directory could not be read at this place.
    Unreadable,
}

impl Listed {
    /// The error that this place of a listing stands for, if any.
    pub open spec fn error(self) -> Option<Error> {
        match self {
            Listed::Name(_) => None,
            Listed::NotUtf8 => Some(Error::InvalidName),
            Listed::Unreadable => Some(Error::Io),
        }
    }
}

/// The stores that are kept once a store was asked for under `name`: the new
/// one among them where there is one, else those that were.
pub open spec fn kept_after<C>(
    cache: Map<Seq<char>, C>,
    name: Seq<char>,
    outcome: Result<C, Error>,
) -> Map<Seq<char>, C> {
    match outcome {
        Ok(pool) => cache.insert(name, pool),
        Err(_) => cache,
    }
}

/// A store that is kept stays kept, whatever is asked for next, and under
/// every other name the same store is kept as before.
pub proof fn lemma_kept_stays_kept<C>(
    cache: Map<Seq<char>, C>,
    name: Seq<char>,
    outcome: Result<C, Error>,
    other: Seq<char>,
)
    requires
        cache.contains_key(other),
    ensures
        kept_after(cache, name, outcome).contains_key(other),
        other != name ==> kept_after(cache, name, outcome)[other] == cache[other],
{
}

/// What [`DAL::delete_project`] makes of the answer to the removal of the
/// backing file.
pub open spec fn removal_outcome(removed: Result<(), Failure>) -> Result<(), Error> {
    match removed {
        Ok(()) => Ok(()),
        Err(f) => Err(f.lookup_error()),
    }
}

/// Whether place `i` of `slots` is the one kept under `name`.
spec fn holds<C>(slots: Seq<(String, Project<C>)>, name: Seq<char>, i: int) -> bool {
    0 <= i < slots.len() && slots[i].0@ == name
}

/// No name is kept at two places.
spec fn distinct<C>(slots: Seq<(String, Project<C>)>) -> bool {
    forall|name: Seq<char>, i: int, j: int|
        #[trigger] holds(slots, name, i) && #[trigger] holds(slots, name, j) ==> i == j
}

/// The pools of the stores in `slots`, by project name.
spec fn as_map<C>(slots: Seq<(String, Project<C>)>) -> Map<Seq<char>, C> {
    Map::new(
        |name: Seq<char>| exists|i: int| holds(slots, name, i),
        |name: Seq<char>| slots[choose|i: int| holds(slots, name, i)].1@,
    )
}

proof fn lemma_kept<C>(slots: Seq<(String, Project<C>)>, name: Seq<char>, i: int)
    requires
        distinct(slots),
        holds(slots, name, i),
    ensures
        as_map(slots).contains_key(name),
        as_map(slots)[name] == slots[i].1@,
{
    let j = choose|j: int| holds(slots, name, j);
    assert(holds(slots, name, j));
}

/// The path that `std::path::Path::join` makes of the directory `root` and
/// the file name `name`, as text, or `None` where the joined path is not
/// valid UTF-8. The join looks at the two texts and at nothing else: no file,
/// no working directory, no setting of the machine. What the joined text is
/// follows the path syntax that the program is built for, and is not written
/// out here.
pub uninterp spec fn joined_path(root: Seq<char>, name: Seq<char>) -> Option<Seq<char>>;

/// `std::path::Path::join`, on text. The claim is that the result is
/// [`joined_path`] of the two texts: the same directory and name give the
/// same path, each time. Nothing else is claimed of the path.
#[verifier::external_body]
fn join(root: &str, name: &str) -> (joined: Option<String>)
    ensures
        match joined {
            Some(path) => joined_path(root@, name@) == Some(path@),
            None => joined_path(root@, name@) is None,
        },
{
    std::path::Path::new(root).join(name).into_os_string().into_string().ok()
}

/// What a joined path comes to as the path of a project's file: the path
/// itself, or `InvalidName` where it is not text.
pub open spec fn path_outcome(joined: Option<Seq<char>>) -> Result<Seq<char>, Error> {
    match joined {
        Some(path) => Ok(path),
        None => Err(Error::InvalidName),
    }
}

/// Judges a joined path: it is the path of the project's file, or, where the
/// join gave no text, the project's name is an `InvalidName`.
pub fn located(joined: Option<String>) -> (r: Result<String, Error>)
    ensures
        match joined {
            Some(path) => r == Ok::<String, Error>(path),
            None => r == Err::<String, Error>(Error::InvalidName),
        },
{
    match joined {
        Some(path) => Ok(path),
        None => Err(Error::InvalidName),
    }
}

/// The catalogue: the root directory, and the store of every project that
/// was opened or created through it. A store, once kept, stays until another
/// of the same project takes its place.
pub struct DAL<C> {
    path: String,
    slots: Vec<(String, Project<C>)>,
}

impl<C> DAL<C> {
    #[verifier::type_invariant]
    spec fn well_formed(&self) -> bool {
        distinct(self.slots@)
    }

    /// The root directory.
    pub closed spec fn root(&self) -> Seq<char> {
        self.path@
    }

    /// The pools of the stores that are kept, by project name.
    pub closed spec fn cache(&self) -> Map<Seq<char>, C> {
        as_map(self.slots@)
    }

    /// A catalogue over the directory `path`, with no store kept.
    pub fn new(path: String) -> (dal: Self)
        ensures
            dal.root() == path@,
            dal.cache() == Map::<Seq<char>, C>::empty(),
    {
        let dal = DAL { path, slots: Vec::new() };
        assert(dal.cache() =~= Map::<Seq<char>, C>::empty());
        dal
    }

    /// The root directory.
    pub fn path(&self) -> (path: &String)
        ensures
            path@ == self.root(),
    {
        &self.path
    }

    /// The path of the backing file of `project`: its name joined to the
    /// root directory, the same path each time it is asked for. A path that
    /// is not text is `InvalidName`.
    pub fn project_path(&self, project: &str) -> (r: Result<String, Error>)
        ensures
            match path_outcome(joined_path(self.root(), project@)) {
                Ok(path) => r is Ok && r->Ok_0@ == path,
                Err(e) => r is Err && r->Err_0 == e,
            },
    {
        located(join(self.path.as_str(), project))
    }

    /// The place at which the store of `key` is kept.
    fn find(&self, key: &String) -> (place: Option<usize>)
        ensures
            match place {
                Some(i) => holds(self.slots@, key@, i as int),
                None => forall|i: int| !holds(self.slots@, key@, i),
            },
    {
        let mut i: usize = 0;
        while i < self.slots.len()
            invariant
                i <= self.slots@.len(),
                forall|j: int| 0 <= j < i ==> !holds(self.slots@, key@, j),
            decreases self.slots@.len() - i,
        {
            if self.slots[i].0 == *key {
                return Some(i);
            }
            i += 1;
        }
        None
    }

    /// The store that is kept for `project`, if one is.
    pub fn cached(&self, project: &str) -> (r: Option<&Project<C>>)
        ensures
            r is Some <==> self.cache().contains_key(project@),
            r is Some ==> r->Some_0@ == self.cache()[project@],
    {
        proof {
            use_type_invariant(self);
        }
        let key = project.to_owned();
        match self.find(&key) {
            Some(i) => {
                proof {
                    lemma_kept(self.slots@, project@, i as int);
                }
                Some(&self.slots[i].1)
            },
            None => None,
        }
    }

    /// Decides how the store of `project` is had: it is kept, or it has to
    /// be opened, at the path that [`DAL::project_path`] gives. Where that
    /// path is not text, the lookup fails with `InvalidName`.
    pub fn lookup<'a>(&'a self, project: &str) -> (r: Result<Lookup<'a, C>, Error>)
        ensures
            self.cache().contains_key(project@) ==> r is Ok && r->Ok_0 is Kept && r->Ok_0->Kept_0@
                == self.cache()[project@],
            !self.cache().contains_key(project@) ==> match path_outcome(
                joined_path(self.root(), project@),
            ) {
                Ok(path) => r is Ok && r->Ok_0 is Open && r->Ok_0->Open_0@ == path,
                Err(e) => r is Err && r->Err_0 == e,
            },
    {
        match self.cached(project) {
            Some(p) => Ok(Lookup::Kept(p)),
            None => match self.project_path(project) {
                Ok(path) => Ok(Lookup::Open(path)),
                Err(e) => Err(e),
            },
        }
    }

    /// Keeps `val` as the store of `key`, in the place of the one that was
    /// kept for it, if any. Returns where it is kept.
    fn insert_into_cache(&mut self, key: &str, val: Project<C>) -> (place: usize)
        ensures
            final(self).path == old(self).path,
            final(self).cache() == old(self).cache().insert(key@, val@),
            place < final(self).slots@.len(),
            final(self).slots@[place as int].1 == val,
    {
        proof {
            use_type_invariant(&*self);
        }
        let ghost before = self.slots@;
        let name = key.to_owned();
        let found = self.find(&name);
        let mut slots: Vec<(String, Project<C>)> = Vec::new();
        core::mem::swap(&mut self.slots, &mut slots);
        match found {
            Some(i) => {
                slots.set(i, (name, val));
                proof {
                    let after = slots@;
                    assert forall|n: Seq<char>, a: int| #[trigger] holds(after, n, a) implies holds(
                        before,
                        n,
                        a,
                    ) by {}
                    assert forall|n: Seq<char>, a: int| #[trigger] holds(before, n, a) implies holds(
                        after,
                        n,
                        a,
                    ) by {}
                    assert(distinct(after));
                    assert forall|n: Seq<char>| #[trigger]
                        as_map(before).insert(key@, val@).contains_key(n) implies as_map(
                        after,
                    ).contains_key(n) && as_map(after)[n] == as_map(before).insert(key@, val@)[n] by {
                        if n == key@ {
                            lemma_kept(after, n, i as int);
                        } else {
                            let a = choose|a: int| holds(before, n, a);
                            lemma_kept(before, n, a);
                            lemma_kept(after, n, a);
                        }
                    }
                    assert(as_map(after) =~= as_map(before).insert(key@, val@));
                }
                core::mem::swap(&mut self.slots, &mut slots);
                i
            },
            None => {
                slots.push((name, val));
                proof {
                    let after = slots@;
                    let last = before.len() as int;
                    assert forall|n: Seq<char>, a: int| #[trigger] holds(after, n, a) implies (a
                        == last && n == key@) || holds(before, n, a) by {}
                    assert forall|n: Seq<char>, a: int| #[trigger] holds(before, n, a) implies holds(
                        after,
                        n,
                        a,
                    ) by {}
                    assert(holds(after, key@, last));
                    assert(distinct(after));
                    assert forall|n: Seq<char>| #[trigger]
                        as_map(before).insert(key@, val@).contains_key(n) implies as_map(
                        after,
                    ).contains_key(n) && as_map(after)[n] == as_map(before).insert(key@, val@)[n] by {
                        if n == key@ {
                            lemma_kept(after, n, last);
                        } else {
                            let a = choose|a: int| holds(before, n, a);
                            lemma_kept(before, n, a);
                            lemma_kept(after, n, a);
                        }
                    }
                    assert(as_map(after) =~= as_map(before).insert(key@, val@));
                }
                core::mem::swap(&mut self.slots, &mut slots);
                self.slots.len() - 1
            },
        }
    }

    /// Ends the lookup of a project that was not kept: the application has
    /// asked for a connection to its file. The store of a connection that was
    /// made is kept from now on, in the place of any that was kept meanwhile,
    /// and returned. A refused connection changes nothing: `NotFound` where
    /// the file is missing, else `Io`.
    pub fn project(&mut self, project: &str, connected: Result<C, Failure>) -> (r: Result<
        &Project<C>,
        Error,
    >)
        ensures
            final(self).root() == old(self).root(),
            final(self).cache() == kept_after(old(self).cache(), project@, open_outcome(connected)),
            match open_outcome(connected) {
                Ok(pool) => r is Ok && r->Ok_0@ == pool,
                Err(e) => r is Err && r->Err_0 == e,
            },
    {
        match Project::open(connected) {
            Ok(p) => {
                let place = self.insert_into_cache(project, p);
                Ok(&self.slots[place].1)
            },
            Err(e) => Err(e),
        }
    }

    /// Begins the creation of a project: the first step, which asks for the
    /// file at the project's path, the one that [`DAL::project_path`] gives.
    /// A path that is not text is `InvalidName`, and nothing is asked for.
    pub fn creation(&self, project: &str) -> (r: Result<Creating<C>, Error>)
        ensures
            match path_outcome(joined_path(self.root(), project@)) {
                Ok(path) => r is Ok && r->Ok_0 is MakeFile && r->Ok_0->MakeFile_0@ == path,
                Err(e) => r is Err && r->Err_0 == e,
            },
    {
        Creating::begin(self.project_path(project))
    }

    /// Ends the creation of a project at its last step. The store of a
    /// creation that succeeded is kept and returned; one that failed changes
    /// nothing and returns its error; one that was left before its end has
    /// made no store, and is `Io`.
    pub fn create_project(&mut self, project: &str, last: Creating<C>) -> (r: Result<
        &Project<C>,
        Error,
    >)
        ensures
            final(self).root() == old(self).root(),
            final(self).cache() == kept_after(old(self).cache(), project@, last.outcome()),
            match last.outcome() {
                Ok(pool) => r is Ok && r->Ok_0@ == pool,
                Err(e) => r is Err && r->Err_0 == e,
            },
    {
        match last {
            Creating::Done(Ok(pool)) => {
                let place = self.insert_into_cache(project, Project { pool });
                Ok(&self.slots[place].1)
            },
            Creating::Done(Err(e)) => Err(e),
            _ => Err(Error::Io),
        }
    }

    /// Judges the removal of a project's backing file: `NotFound` where there
    /// was none, `Io` for any other failure. A store that is kept for the
    /// project stays kept.
    pub fn delete_project(&self, project: &str, removed: Result<(), Failure>) -> (r: Result<
        (),
        Error,
    >)
        ensures
            r == removal_outcome(removed),
    {
        match removed {
            Ok(()) => Ok(()),
            Err(f) => Err(f.on_lookup()),
        }
    }

    /// The names of all projects, in the order of the listing, or no name at
    /// all: a listing that failed is `Io`, and so is a place that could not
    /// be read; a name that is not UTF-8 is `InvalidName`. Of several bad
    /// places the first decides.
    pub fn projects(&self, listing: Result<Vec<Listed>, Failure>) -> (r: Result<Vec<String>, Error>)
        ensures
            listing is Err ==> r is Err && r->Err_0 == Error::Io,
            listing is Ok ==> listed(listing->Ok_0@, r),
    {
        match listing {
            Err(_) => Err(Error::Io),
            Ok(places) => collect_names(&places),
        }
    }
}

/// Whether the first `upto` places of a listing all hold a name.
pub open spec fn names_only(places: Seq<Listed>, upto: int) -> bool {
    forall|i: int| 0 <= i < upto ==> (#[trigger] places[i]) is Name
}

/// Whether `r` is what a listing with these places gives: every name in
/// order where all places hold one, else the error of the first that does
/// not.
pub open spec fn listed(places: Seq<Listed>, r: Result<Vec<String>, Error>) -> bool {
    match r {
        Ok(names) => names_only(places, places.len() as int) && names@.len() == places.len()
            && forall|i: int|
            0 <= i < names@.len() ==> (#[trigger] names@[i])@ == places[i]->Name_0@,
        Err(e) => exists|k: int|
            0 <= k < places.len() && names_only(places, k) && (#[trigger] places[k]).error()
                == Some(e),
    }
}

/// The names of a listing, all or none.
fn collect_names(places: &Vec<Listed>) -> (r: Result<Vec<String>, Error>)
    ensures
        listed(places@, r),
{
    let mut names: Vec<String> = Vec::new();
    let mut i: usize = 0;
    while i < places.len()
        invariant
            i <= places@.len(),
            names@.len() == i,
            names_only(places@, i as int),
            forall|j: int| 0 <= j < i ==> (#[trigger] names@[j])@ == places@[j]->Name_0@,
        decreases places@.len() - i,
    {
        match &places[i] {
            Listed::Name(name) => {
                names.push(name.clone());
            },
            Listed::NotUtf8 => {
                assert(places@[i as int].error() == Some(Error::InvalidName));
                return Err(Error::InvalidName);
            },
            Listed::Unreadable => {
                assert(places@[i as int].error() == Some(Error::Io));
                return Err(Error::Io);
            },
        }
        i += 1;
    }
    Ok(names)
}

} // verus!
