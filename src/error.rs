use vstd::prelude::*;

verus! {

/// The ways a store operation can fail.
#[derive(Clone, Copy, Debug, PartialEq, Eq, Structural)]
pub enum Error {
    /// No row has the requested id.
    NotFound,
    /// Any other failure of the store.
    StoreFailure,
}

/// The HTTP status code that reports an error.
pub open spec fn status_of(e: Error) -> u16 {
    match e {
        Error::NotFound => 404,
        Error::StoreFailure => 500,
    }
}

impl Error {
    /// The HTTP status code under which this error is reported.
    pub fn status_code(&self) -> (r: u16)
        ensures
            r == status_of(*self),
    {
        match self {
            Error::NotFound => 404,
            Error::StoreFailure => 500,
        }
    }
}

} // verus!
