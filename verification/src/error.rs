//! Errors of the stages that come before scene construction.
use vstd::prelude::*;

verus! {

/// A failure reported while turning TeX into a layout.
#[derive(Clone, Debug, PartialEq, Eq)]
pub struct Error {
    pub message: String,
}

impl Error {
    /// The text that describes the failure.
    pub fn message(&self) -> (m: String)
        ensures
            m@ == self.message@,
    {
        self.message.clone()
    }
}

} // verus!
