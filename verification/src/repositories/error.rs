use vstd::prelude::*;
use vstd::string::*;

verus! {

/// Why a store could not do what it was asked.
#[derive(Debug)]
pub enum RepositoryError {
    /// The record asked for is not there.
    NotFound,
    /// Anything else, in words.
    Other(String),
}

impl Clone for RepositoryError {
    fn clone(&self) -> (copy: Self)
        ensures
            copy == *self,
    {
        match self {
            RepositoryError::NotFound => RepositoryError::NotFound,
            RepositoryError::Other(message) => RepositoryError::Other(message.clone()),
        }
    }
}

impl RepositoryError {
    /// The failure in words.
    pub open spec fn spec_message(&self) -> Seq<char> {
        match self {
            RepositoryError::NotFound => "Not found"@,
            RepositoryError::Other(message) => message@,
        }
    }

    pub fn to_string(&self) -> (text: String)
        ensures
            text@ == self.spec_message(),
    {
        match self {
            RepositoryError::NotFound => String::from_str("Not found"),
            RepositoryError::Other(message) => message.clone(),
        }
    }

    /// A failure other than absence, described by `message`.
    pub fn other(message: &str) -> (error: Self)
        ensures
            error == RepositoryError::Other(error->0),
            error->0@ == message@,
    {
        RepositoryError::Other(String::from_str(message))
    }
}

} // verus!
