//! The error taxonomy the library exposes: every failure an operation can
//! raise is one of these three terminal kinds.

use vstd::prelude::*;

verus! {

/// The three kinds of failure: a transport failure, a violated structural
/// assumption about the listing markup, or a filter file of the wrong shape.
#[derive(Clone, Copy, Debug, PartialEq, Eq, Structural)]
pub enum Error {
    Networking,
    ParsingWebsite,
    ParsingFile,
}

impl Error {
    /// A human-readable description of the failure.
    pub fn message(&self) -> (r: &'static str)
        ensures
            self is Networking ==> r@ == "A networking error occured. Are you connected to the internet?"@,
            self is ParsingWebsite ==> r@ == "Could not parse the website. Maybe it has changed?"@,
            self is ParsingFile ==> r@ == "Could not parse the file about the filters."@,
    {
        match self {
            Error::Networking => "A networking error occured. Are you connected to the internet?",
            Error::ParsingWebsite => "Could not parse the website. Maybe it has changed?",
            Error::ParsingFile => "Could not parse the file about the filters.",
        }
    }
}

} // verus!
