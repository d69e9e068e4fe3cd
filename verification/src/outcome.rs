//! The tagged result of one tool operation.
//!
//! Every operation answers with an [`Outcome`]: a success confirmation or a
//! human-readable failure description. Nothing is ever signalled through a
//! fault crossing the operation boundary. For hosts whose transport carries a
//! single string, [`Outcome::flatten`] collapses the tag and hands back the
//! message alone.

use vstd::prelude::*;

verus! {

/// The answer of one tool operation: a success confirmation or a failure
/// description. The carried string is the exact text shown to the caller.
pub enum Outcome {
    /// The operation did what was asked; the string confirms it.
    Success(String),
    /// The operation could not be done; the string describes why.
    Failure(String),
}

impl Outcome {
    /// True when this outcome reports success.
    pub open spec fn is_success(&self) -> bool {
        self matches Outcome::Success(_)
    }

    /// The message carried by this outcome, success and failure alike.
    pub open spec fn text(&self) -> Seq<char> {
        match self {
            Outcome::Success(m) => m@,
            Outcome::Failure(m) => m@,
        }
    }

    /// Reports whether this outcome is a success.
    pub fn succeeded(&self) -> (r: bool)
        ensures
            r == self.is_success(),
    {
        match self {
            Outcome::Success(_) => true,
            Outcome::Failure(_) => false,
        }
    }

    /// Collapses the outcome to its bare message, for hosts whose contract is
    /// a single string for success and failure alike.
    pub fn flatten(self) -> (r: String)
        ensures
            r@ == self.text(),
    {
        match self {
            Outcome::Success(m) => m,
            Outcome::Failure(m) => m,
        }
    }
}

} // verus!
