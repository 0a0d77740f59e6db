//! The ways in which planning can fail.

use vstd::prelude::*;
use vstd::std_specs::cmp::PartialEqSpecImpl;
use vstd::string::StringExecFns;

verus! {

/// A failure of one of the planning steps.
#[derive(Debug)]
pub enum Error {
    /// An action names a package source that the host configuration does not describe.
    UnknownPackageManager { source: String, origin: String },
    /// A local dependency has no definition in the repository.
    MissingPackage { name: String },
    /// A local package depends, directly or not, on itself.
    CyclicDependency { name: String },
    /// A definition could not be read; the text says why.
    ParseError { reason: String },
}

/// The mathematical value of an [`Error`].
pub ghost enum ErrorView {
    UnknownPackageManager { source: Seq<char>, origin: Seq<char> },
    MissingPackage { name: Seq<char> },
    CyclicDependency { name: Seq<char> },
    ParseError { reason: Seq<char> },
}

impl View for Error {
    type V = ErrorView;

    open spec fn view(&self) -> ErrorView {
        match *self {
            Error::UnknownPackageManager { source, origin } => ErrorView::UnknownPackageManager {
                source: source@,
                origin: origin@,
            },
            Error::MissingPackage { name } => ErrorView::MissingPackage { name: name@ },
            Error::CyclicDependency { name } => ErrorView::CyclicDependency { name: name@ },
            Error::ParseError { reason } => ErrorView::ParseError { reason: reason@ },
        }
    }
}

/// The words in which an error is told.
pub open spec fn message_of(error: ErrorView) -> Seq<char> {
    match error {
        ErrorView::UnknownPackageManager { source, origin } => "Invalid source "@ + source
            + " from "@ + origin,
        ErrorView::MissingPackage { name } => "Missing package "@ + name,
        ErrorView::CyclicDependency { name } => "Cyclic dependency on package "@ + name,
        ErrorView::ParseError { reason } => reason,
    }
}

impl Error {
    /// The words in which the error is told.
    pub fn message(&self) -> (text: String)
        ensures
            text@ == message_of(self@),
    {
        match self {
            Error::UnknownPackageManager { source, origin } => {
                let mut text = "Invalid source ".to_owned();
                text.append(source.as_str());
                text.append(" from ");
                text.append(origin.as_str());
                text
            },
            Error::MissingPackage { name } => {
                let mut text = "Missing package ".to_owned();
                text.append(name.as_str());
                text
            },
            Error::CyclicDependency { name } => {
                let mut text = "Cyclic dependency on package ".to_owned();
                text.append(name.as_str());
                text
            },
            Error::ParseError { reason } => reason.clone(),
        }
    }
}

impl PartialEq for Error {
    fn eq(&self, other: &Self) -> (equal: bool) {
        match (self, other) {
            (
                Error::UnknownPackageManager { source: s1, origin: g1 },
                Error::UnknownPackageManager { source: s2, origin: g2 },
            ) => *s1 == *s2 && *g1 == *g2,
            (Error::MissingPackage { name: n1 }, Error::MissingPackage { name: n2 }) => *n1 == *n2,
            (Error::CyclicDependency { name: n1 }, Error::CyclicDependency { name: n2 }) => *n1
                == *n2,
            (Error::ParseError { reason: r1 }, Error::ParseError { reason: r2 }) => *r1 == *r2,
            _ => false,
        }
    }
}

impl PartialEqSpecImpl for Error {
    open spec fn obeys_eq_spec() -> bool {
        true
    }

    open spec fn eq_spec(&self, other: &Self) -> bool {
        self@ == other@
    }
}

impl Eq for Error {

}

} // verus!
