//! Stage failures, by kind.
//!
//! A stage that fails returns a structured error, never a bare boolean:
//! a missing stage input is a configuration fault, an unknown format
//! descriptor names the offending key, mapped data that does not fit its
//! schema is a validation fault, and a failure to render an already
//! validated value is its own kind, since it points at a defect rather
//! than at the data.

use vstd::prelude::*;

verus! {

/// Why a stage refused to do its work.
#[derive(Debug)]
pub enum StageError {
    /// A required stage input is missing or unusable; the text names it.
    Config(String),
    /// The format descriptor is not in the dispatch table; the text holds it.
    UnsupportedFormat(String),
    /// The data does not fit the selected schema, or a field is absent.
    Validation(String),
    /// A validated value failed to render to XML.
    Render(String),
}

impl StageError {
    /// The error's text.
    pub open spec fn text(&self) -> Seq<char> {
        match self {
            StageError::Config(m) => m@,
            StageError::UnsupportedFormat(m) => m@,
            StageError::Validation(m) => m@,
            StageError::Render(m) => m@,
        }
    }

    /// The error's text, for display.
    pub fn message(&self) -> (r: &String)
        ensures
            r@ == self.text(),
    {
        match self {
            StageError::Config(m) => m,
            StageError::UnsupportedFormat(m) => m,
            StageError::Validation(m) => m,
            StageError::Render(m) => m,
        }
    }
}

} // verus!
