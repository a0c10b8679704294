//! Sampling: what the answers of the PDF reader come to. The reader itself
//! is called by whoever drives the library; here its two answers, to loading
//! a document and to extracting text from it, are turned into a sample or
//! into the error that describes what went wrong.

use vstd::prelude::*;
use vstd::string::StringExecFns;
use crate::biblio::BiblioError;

verus! {

/// `lopdf::Document`, carried through unopened.
#[verifier::external_type_specification]
#[verifier::external_body]
pub struct ExPdfDocument(lopdf::Document);

/// `lopdf::Error`, carried through unopened.
#[verifier::external_type_specification]
#[verifier::external_body]
pub struct ExPdfError(lopdf::Error);

/// The error of a document that could not be read.
pub fn load_failure(cause: &str) -> (e: BiblioError)
    ensures
        e matches BiblioError::PDFError(text) && text@ == "Failed to load PDF: "@ + cause@,
{
    let mut text = "Failed to load PDF: ".to_string();
    text.append(cause);
    BiblioError::PDFError(text)
}

/// The error of a document whose pages gave no text.
pub fn extract_failure(cause: &str) -> (e: BiblioError)
    ensures
        e matches BiblioError::PDFError(text) && text@ == "Failed to extract text: "@ + cause@,
{
    let mut text = "Failed to extract text: ".to_string();
    text.append(cause);
    BiblioError::PDFError(text)
}

/// Whether `text` is `step` followed by the PDF reader's own description of
/// its error `cause`.
pub open spec fn describes_reader_error(
    cause: lopdf::Error,
    text: Seq<char>,
    step: Seq<char>,
) -> bool {
    exists|shown: String|
        vstd::string::to_string_from_display_ensures::<lopdf::Error>(&cause, shown) && text == step
            + shown@
}

/// What loading a document comes to, for each thing that the PDF reader can
/// hand back: the document itself, or in place of the reader's error the PDF
/// error that describes it.
pub fn document_or_failure(loaded: Result<lopdf::Document, lopdf::Error>) -> (r: Result<
    lopdf::Document,
    BiblioError,
>)
    ensures
        match loaded {
            Ok(doc) => r == Ok::<lopdf::Document, BiblioError>(doc),
            Err(cause) => {
                &&& r matches Err(BiblioError::PDFError(text))
                &&& describes_reader_error(cause, text@, "Failed to load PDF: "@)
            },
        },
{
    match loaded {
        Ok(doc) => Ok(doc),
        Err(cause) => {
            let shown = cause.to_string();
            Err(load_failure(shown.as_str()))
        },
    }
}

/// What extracting text comes to, for each thing that the PDF reader can hand
/// back: the text itself, which is the document's sample, or in place of the
/// reader's error the PDF error that describes it.
pub fn text_or_failure(extracted: Result<String, lopdf::Error>) -> (r: Result<String, BiblioError>)
    ensures
        match extracted {
            Ok(text) => r == Ok::<String, BiblioError>(text),
            Err(cause) => {
                &&& r matches Err(BiblioError::PDFError(text))
                &&& describes_reader_error(cause, text@, "Failed to extract text: "@)
            },
        },
{
    match extracted {
        Ok(text) => Ok(text),
        Err(cause) => {
            let shown = cause.to_string();
            Err(extract_failure(shown.as_str()))
        },
    }
}

} // verus!
