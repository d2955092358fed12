//! Why a token could not be read.

use vstd::prelude::*;

verus! {

/// A token that is this technology's and cannot be read, and why.
#[derive(Clone, Debug, PartialEq, Eq)]
pub struct IdentifyError {
    /// What is wrong, in words.
    pub message: String,
}

impl IdentifyError {
    /// An error that says this.
    pub fn new(message: &str) -> (error: Self)
        ensures
            error.message@ == message@,
    {
        IdentifyError { message: message.to_owned() }
    }

    /// What is wrong, in words.
    pub fn to_string(&self) -> (message: String)
        ensures
            message@ == self.message@,
    {
        self.message.clone()
    }
}

/// What a reading came to: what it read, or the words that say why it read
/// nothing.
pub open spec fn outcome<T: View>(result: Result<T, IdentifyError>) -> Result<T::V, Seq<char>> {
    match result {
        Ok(value) => Ok(value@),
        Err(error) => Err(error.message@),
    }
}

/// What a reading came to that may find nothing to read.
pub open spec fn outcome_if_any<T: View>(result: Result<Option<T>, IdentifyError>) -> Result<
    Option<T::V>,
    Seq<char>,
> {
    match result {
        Ok(Some(value)) => Ok(Some(value@)),
        Ok(None) => Ok(None),
        Err(error) => Err(error.message@),
    }
}

/// A reading that succeeds comes to what it read, and one that fails to the
/// words of its error, whatever these are.
pub proof fn an_outcome_is_what_a_reading_returned<T: View>(
    value: T,
    error: IdentifyError,
)
    ensures
        outcome(Ok::<T, IdentifyError>(value)) == Ok::<T::V, Seq<char>>(value@),
        outcome(Err::<T, IdentifyError>(error)) == Err::<T::V, Seq<char>>(error.message@),
        outcome_if_any(Ok::<Option<T>, IdentifyError>(Some(value))) == Ok::<
            Option<T::V>,
            Seq<char>,
        >(Some(value@)),
        outcome_if_any(Ok::<Option<T>, IdentifyError>(None)) == Ok::<Option<T::V>, Seq<char>>(None),
        outcome_if_any(Err::<Option<T>, IdentifyError>(error)) == Err::<Option<T::V>, Seq<char>>(
            error.message@,
        ),
{
}

} // verus!
