//! Failure, said out loud.
//!
//! A decompiler that drops an instruction it does not know emits code that runs
//! and is wrong, which is the one outcome worse than emitting nothing: the
//! reader has no way to tell. Every gap comes back as an [`Error::Unsupported`]
//! naming the construct and where it was found.

use vstd::prelude::*;
use vstd::string::StringExecFns;

verus! {

/// What went wrong.
#[derive(Debug, Clone, PartialEq, Eq)]
pub enum Error {
    /// The bytes are not a valid wasm module. The decoder's own words.
    Decode(String),
    /// A construct this version does not model. Never a silent skip.
    Unsupported {
        /// The construct, named the way wasm names it.
        construct: String,
        /// Where it turned up: a function, a section, a segment.
        location: String,
    },
    /// The module is well-formed but says something impossible.
    Invalid {
        /// What did not add up.
        problem: String,
        /// Where it turned up.
        location: String,
    },
}

/// What an [`Error`] says.
pub enum Failure {
    /// What the decoder said.
    Decode(Seq<char>),
    /// A construct, and where it turned up.
    Unsupported(Seq<char>, Seq<char>),
    /// A problem, and where it turned up.
    Invalid(Seq<char>, Seq<char>),
}

impl View for Error {
    type V = Failure;

    open spec fn view(&self) -> Failure {
        match *self {
            Error::Decode(words) => Failure::Decode(words@),
            Error::Unsupported { construct, location } => Failure::Unsupported(
                construct@,
                location@,
            ),
            Error::Invalid { problem, location } => Failure::Invalid(problem@, location@),
        }
    }
}

impl Failure {
    /// The failure as a sentence.
    pub open spec fn sentence(self) -> Seq<char> {
        match self {
            Failure::Decode(words) => "decoding the module failed: "@ + words,
            Failure::Unsupported(construct, location) => "unsupported: "@ + construct + " (in "@
                + location
                + "). This is a gap in unwasm, not a problem with the module; nothing was emitted for it rather than emitting a guess."@,
            Failure::Invalid(problem, location) => "invalid module: "@ + problem + " (in "@
                + location + ")"@,
        }
    }
}

impl Error {
    /// Reports an unsupported construct.
    pub fn unsupported(construct: &str, location: &str) -> (error: Self)
        ensures
            error@ == Failure::Unsupported(construct@, location@),
    {
        Error::Unsupported { construct: construct.to_owned(), location: location.to_owned() }
    }

    /// Reports a module that cannot mean what it says.
    pub fn invalid(problem: &str, location: &str) -> (error: Self)
        ensures
            error@ == Failure::Invalid(problem@, location@),
    {
        Error::Invalid { problem: problem.to_owned(), location: location.to_owned() }
    }

    /// The failure as a sentence.
    pub fn message(&self) -> (text: String)
        ensures
            text@ == self@.sentence(),
    {
        match self {
            Error::Decode(words) => {
                let mut text: String = "decoding the module failed: ".to_owned();
                text.append(words.as_str());
                text
            },
            Error::Unsupported { construct, location } => {
                let mut text: String = "unsupported: ".to_owned();
                text.append(construct.as_str());
                text.append(" (in ");
                text.append(location.as_str());
                text.append(
                    "). This is a gap in unwasm, not a problem with the module; nothing was emitted for it rather than emitting a guess.",
                );
                text
            },
            Error::Invalid { problem, location } => {
                let mut text: String = "invalid module: ".to_owned();
                text.append(problem.as_str());
                text.append(" (in ");
                text.append(location.as_str());
                text.append(")");
                text
            },
        }
    }

    /// What the decoder said, where the failure is the decoder's: the other two
    /// are judgements with nothing underneath them to point at.
    pub fn source(&self) -> (words: Option<&str>)
        ensures
            match words {
                Some(words) => self@ == Failure::Decode(words@),
                None => !(self@ is Decode),
            },
    {
        match self {
            Error::Decode(words) => Some(words.as_str()),
            _ => None,
        }
    }
}

} // verus!
