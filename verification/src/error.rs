//! Why a font could not be registered.

use vstd::prelude::*;

verus! {

/// The two ways in which registering a font fails.
#[derive(Clone, Copy, Debug, PartialEq, Eq, Structural)]
pub enum FontError {
    /// The bytes of the file could not be obtained.
    FileNotFound,
    /// The bytes were obtained and are not those of a font.
    InvalidFont,
}

impl FontError {
    /// The text shown to a user for this error.
    pub open spec fn message_text(self) -> Seq<char> {
        match self {
            FontError::FileNotFound => "File not found"@,
            FontError::InvalidFont => "File was not a valid font file"@,
        }
    }

    /// Returns the text shown to a user for this error.
    pub fn message(&self) -> (text: &'static str)
        ensures
            text@ == self.message_text(),
    {
        match self {
            FontError::FileNotFound => "File not found",
            FontError::InvalidFont => "File was not a valid font file",
        }
    }
}

} // verus!
