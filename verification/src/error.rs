//! What can go wrong while a simulator is located, taken live or controlled.

use vstd::prelude::*;

verus! {

/// Makes `std::io::Error` known to the verifier as a type of which nothing
/// is known: a value of it is carried from the reply that holds it to the
/// error that reports it, and no claim is made of what it says.
#[verifier::external_type_specification]
#[verifier::external_body]
pub struct ExIoError(std::io::Error);

/// Errors reported by this crate.
#[derive(Debug)]
pub enum Error {
    /// Could not find the configfs mountpoint.
    ConfigfsNotFound,
    /// The command that loads the gpio-sim kernel module ran and failed; holds
    /// what it wrote to its standard error.
    ModuleLoadError(Vec<u8>),
    /// Attempt to take a simulator live with the name of an active simulator.
    SimulatorExists(String),
    /// An unexpected value was read from a configfs or sysfs attribute file.
    UnexpectedValue(String),
    /// Accessing a configfs or sysfs file or directory failed.
    IoError(std::io::Error),
    /// The named external command could not be run.
    CommandError(String, std::io::Error),
}

/// An [`Error`] with its texts as sequences.
pub enum ErrorView {
    ConfigfsNotFound,
    ModuleLoadError(Seq<u8>),
    SimulatorExists(Seq<char>),
    UnexpectedValue(Seq<char>),
    IoError(std::io::Error),
    CommandError(Seq<char>, std::io::Error),
}

impl View for Error {
    type V = ErrorView;

    open spec fn view(&self) -> ErrorView {
        match self {
            Error::ConfigfsNotFound => ErrorView::ConfigfsNotFound,
            Error::ModuleLoadError(stderr) => ErrorView::ModuleLoadError(stderr@),
            Error::SimulatorExists(name) => ErrorView::SimulatorExists(name@),
            Error::UnexpectedValue(value) => ErrorView::UnexpectedValue(value@),
            Error::IoError(e) => ErrorView::IoError(*e),
            Error::CommandError(command, e) => ErrorView::CommandError(command@, *e),
        }
    }
}

/// A result whose error is seen through its view.
pub open spec fn outcome<T>(r: Result<T, Error>) -> Result<T, ErrorView> {
    match r {
        Ok(t) => Ok(t),
        Err(e) => Err(e@),
    }
}

} // verus!
