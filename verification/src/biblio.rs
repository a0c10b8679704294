//! Bibliographic metadata and the error type shared by the whole crate.

use vstd::prelude::*;
use vstd::string::StringExecFns;

verus! {

/// `serde_json::Error`, carried through unopened.
#[verifier::external_type_specification]
#[verifier::external_body]
pub struct ExJsonError(serde_json::Error);

/// `std::io::Error`, carried through unopened.
#[verifier::external_type_specification]
#[verifier::external_body]
pub struct ExIoError(std::io::Error);

/// Bibliographic metadata of one document. Every field may be absent: the
/// inference service leaves out what it cannot find rather than inventing it.
#[derive(Debug)]
pub struct BiblioResponse {
    pub authors: Option<Vec<String>>,
    pub title: Option<String>,
    pub year: Option<String>,
}

/// The mathematical content of a [`BiblioResponse`].
pub struct Metadata {
    pub authors: Option<Seq<Seq<char>>>,
    pub title: Option<Seq<char>>,
    pub year: Option<Seq<char>>,
}

/// The character sequences of a list of strings.
pub open spec fn texts(v: Seq<String>) -> Seq<Seq<char>> {
    v.map_values(|s: String| s@)
}

impl View for BiblioResponse {
    type V = Metadata;

    open spec fn view(&self) -> Metadata {
        Metadata {
            authors: match self.authors {
                Some(v) => Some(texts(v@)),
                None => None,
            },
            title: match self.title {
                Some(t) => Some(t@),
                None => None,
            },
            year: match self.year {
                Some(y) => Some(y@),
                None => None,
            },
        }
    }
}

/// Errors that can occur during bibliographic operations.
#[derive(Debug)]
pub enum BiblioError {
    ENVError(String),
    PDFError(String),
    GeminiError(String),
    JSONError(serde_json::Error),
    IOError(std::io::Error),
}

impl BiblioError {
    /// Whether `text` is the message of the error: the words for its kind,
    /// followed by the cause. For an error of the JSON reader or of the
    /// operating system the cause is that error's own description.
    pub open spec fn is_described_by(self, text: Seq<char>) -> bool {
        match self {
            BiblioError::ENVError(cause) => text == "Environment error: "@ + cause@,
            BiblioError::PDFError(cause) => text == "PDF processing error: "@ + cause@,
            BiblioError::GeminiError(cause) => text == "Gemini API error: "@ + cause@,
            BiblioError::JSONError(e) => exists|cause: String|
                vstd::string::to_string_from_display_ensures::<serde_json::Error>(&e, cause) && text
                    == "JSON parsing error: "@ + cause@,
            BiblioError::IOError(e) => exists|cause: String|
                vstd::string::to_string_from_display_ensures::<std::io::Error>(&e, cause) && text
                    == "I/O error: "@ + cause@,
        }
    }

    /// The message of the error, as shown to the user.
    pub fn message(&self) -> (text: String)
        ensures
            self.is_described_by(text@),
    {
        match self {
            BiblioError::ENVError(cause) => {
                let mut text = "Environment error: ".to_string();
                text.append(cause.as_str());
                text
            },
            BiblioError::PDFError(cause) => {
                let mut text = "PDF processing error: ".to_string();
                text.append(cause.as_str());
                text
            },
            BiblioError::GeminiError(cause) => {
                let mut text = "Gemini API error: ".to_string();
                text.append(cause.as_str());
                text
            },
            BiblioError::JSONError(e) => {
                let cause = e.to_string();
                let mut text = "JSON parsing error: ".to_string();
                text.append(cause.as_str());
                text
            },
            BiblioError::IOError(e) => {
                let cause = e.to_string();
                let mut text = "I/O error: ".to_string();
                text.append(cause.as_str());
                text
            },
        }
    }
}

impl From<serde_json::Error> for BiblioError {
    fn from(e: serde_json::Error) -> (r: BiblioError) {
        BiblioError::JSONError(e)
    }
}

impl vstd::std_specs::convert::FromSpecImpl<serde_json::Error> for BiblioError {
    open spec fn obeys_from_spec() -> bool {
        true
    }

    open spec fn from_spec(e: serde_json::Error) -> BiblioError {
        BiblioError::JSONError(e)
    }
}

impl From<std::io::Error> for BiblioError {
    fn from(e: std::io::Error) -> (r: BiblioError) {
        BiblioError::IOError(e)
    }
}

impl vstd::std_specs::convert::FromSpecImpl<std::io::Error> for BiblioError {
    open spec fn obeys_from_spec() -> bool {
        true
    }

    open spec fn from_spec(e: std::io::Error) -> BiblioError {
        BiblioError::IOError(e)
    }
}

} // verus!
