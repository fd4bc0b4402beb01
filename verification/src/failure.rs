//! What can go wrong at the boundary, and the message that each failure leaves
//! in the last-error slot.

use vstd::prelude::*;

verus! {

/// The four classes of failure.
#[derive(Clone, Copy, Debug, PartialEq, Eq, Structural)]
pub enum ErrorKind {
    /// A required string or handle was not supplied.
    AbsentArgument,
    /// A supplied string is not valid UTF-8.
    Decoding,
    /// A supplied code matches no language of the engine.
    UnknownLanguageCode,
    /// The requested set of languages is empty.
    Construction,
}

/// A failure of one boundary operation. The contracts speak of failures by
/// this type; the operations themselves hand out only the message.
pub enum Failure {
    /// The language list was not supplied.
    LanguagesAbsent,
    /// The language list is not valid UTF-8.
    LanguagesNotUtf8,
    /// An entry of the language list names no language. The entry is kept as
    /// it was written, without the white space around it.
    LanguageCodeInvalid(Seq<char>),
    /// The language list has no entry.
    NoLanguages,
    /// The detector handle was not supplied.
    DetectorAbsent,
    /// The text was not supplied.
    TextAbsent,
    /// The text is not valid UTF-8.
    TextNotUtf8,
    /// One of several required arguments was not supplied.
    ParameterAbsent,
    /// The language code matches no language.
    LanguageCodeUnknown,
    /// The text of a bulk query is not valid UTF-8.
    NotUtf8,
}

impl Failure {
    /// The class that this failure belongs to.
    pub open spec fn kind(self) -> ErrorKind {
        match self {
            Failure::LanguagesAbsent => ErrorKind::AbsentArgument,
            Failure::LanguagesNotUtf8 => ErrorKind::Decoding,
            Failure::LanguageCodeInvalid(_) => ErrorKind::UnknownLanguageCode,
            Failure::NoLanguages => ErrorKind::Construction,
            Failure::DetectorAbsent => ErrorKind::AbsentArgument,
            Failure::TextAbsent => ErrorKind::AbsentArgument,
            Failure::TextNotUtf8 => ErrorKind::Decoding,
            Failure::ParameterAbsent => ErrorKind::AbsentArgument,
            Failure::LanguageCodeUnknown => ErrorKind::UnknownLanguageCode,
            Failure::NotUtf8 => ErrorKind::Decoding,
        }
    }

    /// The message that this failure leaves in the last-error slot.
    pub open spec fn message(self) -> Seq<char> {
        match self {
            Failure::LanguagesAbsent => "languages parameter is null"@,
            Failure::LanguagesNotUtf8 => "Invalid UTF-8 in languages parameter"@,
            Failure::LanguageCodeInvalid(entry) => "Invalid language code: "@ + entry,
            Failure::NoLanguages => "No valid languages provided"@,
            Failure::DetectorAbsent => "detector is null"@,
            Failure::TextAbsent => "text is null"@,
            Failure::TextNotUtf8 => "Invalid UTF-8 in text"@,
            Failure::ParameterAbsent => "null parameter"@,
            Failure::LanguageCodeUnknown => "Invalid language code"@,
            Failure::NotUtf8 => "Invalid UTF-8"@,
        }
    }
}

} // verus!
