use vstd::prelude::*;

verus! {

/// What can go wrong while building, running or storing test packages.
#[derive(Debug, Clone, Copy, PartialEq, Eq, Structural)]
pub enum Error {
    /// An external program could not be started.
    Spawn,
    /// Writing to or reading from an external program failed.
    Io,
    /// An external program's output is not valid text.
    Encoding,
    /// A generator or reference program exited unsuccessfully.
    Crashed,
    /// A build command could not be started.
    Build,
    /// No test package is stored under the requested name.
    NotFound,
    /// A stored test package cannot be parsed or breaks the package invariant.
    CorruptData,
    /// The home directory cannot be determined.
    HomeDirUnavailable,
}

/// The human-readable description of an error.
pub open spec fn error_text(e: Error) -> Seq<char> {
    match e {
        Error::Spawn => "could not start an external program"@,
        Error::Io => "could not talk to an external program"@,
        Error::Encoding => "an external program printed something that is not text"@,
        Error::Crashed => "an external program exited unsuccessfully"@,
        Error::Build => "could not start the build command"@,
        Error::NotFound => "no test package has that name"@,
        Error::CorruptData => "the stored test package is damaged"@,
        Error::HomeDirUnavailable => "could not find the home directory"@,
    }
}

impl Error {
    pub fn message(&self) -> (r: String)
        ensures
            r@ == error_text(*self),
    {
        match self {
            Error::Spawn => "could not start an external program".to_owned(),
            Error::Io => "could not talk to an external program".to_owned(),
            Error::Encoding => "an external program printed something that is not text".to_owned(),
            Error::Crashed => "an external program exited unsuccessfully".to_owned(),
            Error::Build => "could not start the build command".to_owned(),
            Error::NotFound => "no test package has that name".to_owned(),
            Error::CorruptData => "the stored test package is damaged".to_owned(),
            Error::HomeDirUnavailable => "could not find the home directory".to_owned(),
        }
    }
}

} // verus!
