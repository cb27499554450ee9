//! The library's error type.

use vstd::prelude::*;

verus! {

/// Why an operation of the library failed.
#[derive(Debug)]
pub enum FoilError {
    /// Something that was asked for is not there; the text says what.
    NotFound(String),
    /// A path lies outside the directory it was required to lie in.
    OutsideRoot(String),
    /// An external compile ended with this non-zero exit code.
    CompileFailed(i32),
}

/// The library's result type.
pub type Result<T> = std::result::Result<T, FoilError>;

/// The text that an error carries, or a fixed text for a failed compile.
pub open spec fn error_text(e: FoilError) -> Seq<char> {
    match e {
        FoilError::NotFound(m) => m@,
        FoilError::OutsideRoot(m) => m@,
        FoilError::CompileFailed(_) => "the external compiler failed"@,
    }
}

impl FoilError {
    /// The text of the error.
    pub fn message(&self) -> (text: String)
        ensures
            text@ == error_text(*self),
    {
        match self {
            FoilError::NotFound(m) => m.clone(),
            FoilError::OutsideRoot(m) => m.clone(),
            FoilError::CompileFailed(_) => "the external compiler failed".to_owned(),
        }
    }
}

/// A failure that reports `msg` as not found.
pub fn err<T>(msg: &str) -> (r: Result<T>)
    ensures
        r matches Err(FoilError::NotFound(m)) && m@ == msg@,
{
    Err(FoilError::NotFound(msg.to_owned()))
}

} // verus!
