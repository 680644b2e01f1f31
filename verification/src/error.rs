//! The failures that the catalogue and its stores report, and the way the
//! outside work tells the library that something went wrong.

use vstd::prelude::*;

verus! {

/// Why an operation of the catalogue or of a store did not succeed.
#[derive(Clone, Copy, Debug, PartialEq, Eq, Structural)]
pub enum Error {
    /// A project of that name is already there.
    AlreadyExists,
    /// No project, or no entry, of that name or id.
    NotFound,
    /// A name in the root directory, or the path of a project's file, is
    /// not valid UTF-8.
    InvalidName,
    /// The file or the connection failed.
    Io,
}

/// How a piece of outside work failed, as the application classifies it.
#[derive(Clone, Copy, Debug, PartialEq, Eq, Structural)]
pub enum Failure {
    /// The thing to be created was already there.
    AlreadyExists,
    /// The thing asked for was not there.
    NotFound,
    /// Anything else: no permission, a full disk, a corrupt file.
    Other,
}

impl Failure {
    /// The error of a request that looked something up: a missing thing is
    /// `NotFound`, every other failure is `Io`.
    pub open spec fn lookup_error(self) -> Error {
        match self {
            Failure::NotFound => Error::NotFound,
            _ => Error::Io,
        }
    }

    /// The error of a request that made something new: a thing in the way is
    /// `AlreadyExists`, every other failure is `Io`.
    pub open spec fn creation_error(self) -> Error {
        match self {
            Failure::AlreadyExists => Error::AlreadyExists,
            _ => Error::Io,
        }
    }

    /// Computes [`Failure::lookup_error`].
    pub fn on_lookup(self) -> (e: Error)
        ensures
            e == self.lookup_error(),
    {
        match self {
            Failure::NotFound => Error::NotFound,
            _ => Error::Io,
        }
    }

    /// Computes [`Failure::creation_error`].
    pub fn on_creation(self) -> (e: Error)
        ensures
            e == self.creation_error(),
    {
        match self {
            Failure::AlreadyExists => Error::AlreadyExists,
            _ => Error::Io,
        }
    }
}

impl Error {
    /// A short description for people.
    pub fn message(&self) -> (text: &'static str)
        ensures
            text@ == self.message_text(),
    {
        match self {
            Error::AlreadyExists => "the project already exists",
            Error::NotFound => "no such project or entry",
            Error::InvalidName => "couldn't parse file name into valid UTF-8",
            Error::Io => "the file or the connection failed",
        }
    }

    /// The text that [`Error::message`] returns.
    pub open spec fn message_text(&self) -> Seq<char> {
        match self {
            Error::AlreadyExists => "the project already exists"@,
            Error::NotFound => "no such project or entry"@,
            Error::InvalidName => "couldn't parse file name into valid UTF-8"@,
            Error::Io => "the file or the connection failed"@,
        }
    }
}

} // verus!
