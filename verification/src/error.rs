use vstd::prelude::*;

verus! {

#[verifier::external_type_specification]
#[verifier::external_body]
pub struct ExIoError(std::io::Error);

/// Errors reported by the server toolkit.
#[derive(Debug)]
pub enum Error {
    IO(std::io::Error),
    Generic(String),
    /// An error from building an HTTP message, kept as its text.
    HTTP(String),
}

/// The result type used throughout the crate.
pub type Result<T> = std::result::Result<T, Error>;

impl Error {
    /// A generic error carrying `message`.
    pub fn generic(message: &str) -> (r: Error)
        ensures
            r matches Error::Generic(m) && m@ == message@,
    {
        Error::Generic(message.to_owned())
    }

    /// Fails with a generic error carrying `message`.
    pub fn generic_err(message: &str) -> (r: Result<()>)
        ensures
            r matches Err(Error::Generic(m)) && m@ == message@,
    {
        Err(Error::Generic(message.to_owned()))
    }
}

impl From<std::io::Error> for Error {
    fn from(value: std::io::Error) -> (r: Error) {
        Error::IO(value)
    }
}

impl vstd::std_specs::convert::FromSpecImpl<std::io::Error> for Error {
    open spec fn obeys_from_spec() -> bool {
        true
    }

    open spec fn from_spec(v: std::io::Error) -> Error {
        Error::IO(v)
    }
}

} // verus!
