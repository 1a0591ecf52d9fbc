//! The error type of the library.
use vstd::prelude::*;

verus! {

/// Why an operation failed; each variant carries a message.
#[derive(Debug, PartialEq, Eq)]
pub enum StoryError {
    DatabaseError(String),
    SerializationError(String),
    NotFound(String),
    ValidationError(String),
    DuplicateEntry(String),
    InvalidState(String),
    IoError(String),
    Generic(String),
}

impl StoryError {
    /// The message that a variant carries.
    pub open spec fn message(self) -> Seq<char> {
        match self {
            StoryError::DatabaseError(m) => m@,
            StoryError::SerializationError(m) => m@,
            StoryError::NotFound(m) => m@,
            StoryError::ValidationError(m) => m@,
            StoryError::DuplicateEntry(m) => m@,
            StoryError::InvalidState(m) => m@,
            StoryError::IoError(m) => m@,
            StoryError::Generic(m) => m@,
        }
    }

    /// The text that introduces each variant's message.
    pub open spec fn prefix(self) -> Seq<char> {
        match self {
            StoryError::DatabaseError(_) => "Database error: "@,
            StoryError::SerializationError(_) => "Serialization error: "@,
            StoryError::NotFound(_) => "Not found: "@,
            StoryError::ValidationError(_) => "Validation error: "@,
            StoryError::DuplicateEntry(_) => "Duplicate entry: "@,
            StoryError::InvalidState(_) => "Invalid state: "@,
            StoryError::IoError(_) => "IO error: "@,
            StoryError::Generic(_) => "Generic error: "@,
        }
    }

    pub fn not_found(msg: &str) -> (r: Self)
        ensures
            r matches StoryError::NotFound(m) && m@ == msg@,
    {
        StoryError::NotFound(msg.to_owned())
    }

    pub fn validation(msg: &str) -> (r: Self)
        ensures
            r matches StoryError::ValidationError(m) && m@ == msg@,
    {
        StoryError::ValidationError(msg.to_owned())
    }

    pub fn duplicate(msg: &str) -> (r: Self)
        ensures
            r matches StoryError::DuplicateEntry(m) && m@ == msg@,
    {
        StoryError::DuplicateEntry(msg.to_owned())
    }

    pub fn invalid_state(msg: &str) -> (r: Self)
        ensures
            r matches StoryError::InvalidState(m) && m@ == msg@,
    {
        StoryError::InvalidState(msg.to_owned())
    }

    /// The human-readable text of the error.
    pub fn to_string(&self) -> (r: String)
        ensures
            r@ == self.prefix() + self.message(),
    {
        let (head, m) = match self {
            StoryError::DatabaseError(m) => ("Database error: ", m),
            StoryError::SerializationError(m) => ("Serialization error: ", m),
            StoryError::NotFound(m) => ("Not found: ", m),
            StoryError::ValidationError(m) => ("Validation error: ", m),
            StoryError::DuplicateEntry(m) => ("Duplicate entry: ", m),
            StoryError::InvalidState(m) => ("Invalid state: ", m),
            StoryError::IoError(m) => ("IO error: ", m),
            StoryError::Generic(m) => ("Generic error: ", m),
        };
        String::from_str(head).concat(m.as_str())
    }
}

} // verus!
