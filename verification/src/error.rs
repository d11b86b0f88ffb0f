use vstd::prelude::*;

verus! {

/// Why a text could not be read as a mesh.
#[derive(Clone, Copy, Debug, PartialEq, Eq, Structural)]
pub enum Error {
    /// A token that should be a decimal number is none.
    FloatParse,
    /// A component of a vertex key is no unsigned integer.
    IntParse,
    /// A statement or a vertex key has the wrong number of parts, or a
    /// vertex key points outside the list it refers to.
    InvalidFormat,
}

impl Error {
    /// The text that describes the error.
    pub open spec fn spec_message(self) -> Seq<char> {
        match self {
            Error::FloatParse => "failed to parse float"@,
            Error::IntParse => "failed to parse integer"@,
            Error::InvalidFormat => "invalid format"@,
        }
    }

    /// A short description of the error, for display.
    pub fn message(&self) -> (text: String)
        ensures
            text@ == self.spec_message(),
    {
        match self {
            Error::FloatParse => "failed to parse float".to_owned(),
            Error::IntParse => "failed to parse integer".to_owned(),
            Error::InvalidFormat => "invalid format".to_owned(),
        }
    }
}

} // verus!
