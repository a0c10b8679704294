use biblio::{BiblioError, BiblioResponse};

fn json_error() -> serde_json::Error {
    serde_json::from_str::<serde_json::Value>("[1,").unwrap_err()
}

#[test]
fn message_of_an_environment_error() {
    let e = BiblioError::ENVError("MODEL key not found in .env file".to_string());
    assert_eq!(e.message(), "Environment error: MODEL key not found in .env file");
}

#[test]
fn message_of_a_pdf_error() {
    let e = BiblioError::PDFError("Failed to load PDF: IO error".to_string());
    assert_eq!(e.message(), "PDF processing error: Failed to load PDF: IO error");
}

#[test]
fn message_of_an_api_error() {
    let e = BiblioError::GeminiError("Could not connect to Gemini: timeout".to_string());
    assert_eq!(e.message(), "Gemini API error: Could not connect to Gemini: timeout");
}

#[test]
fn message_of_a_json_error() {
    let text = json_error().to_string();
    assert_eq!(text, "EOF while parsing a value at line 1 column 3");
    let e = BiblioError::JSONError(json_error());
    assert_eq!(e.message(), "JSON parsing error: EOF while parsing a value at line 1 column 3");
}

#[test]
fn message_of_an_io_error() {
    let e = BiblioError::IOError(std::io::Error::new(std::io::ErrorKind::NotFound, "no such file"));
    assert_eq!(e.message(), "I/O error: no such file");
}

#[test]
fn message_with_an_empty_cause() {
    assert_eq!(BiblioError::ENVError(String::new()).message(), "Environment error: ");
}

#[test]
fn json_error_converts() {
    let e: BiblioError = json_error().into();
    assert!(matches!(e, BiblioError::JSONError(_)));
    assert!(matches!(BiblioError::from(json_error()), BiblioError::JSONError(_)));
}

#[test]
fn io_error_converts() {
    let e: BiblioError = std::io::Error::new(std::io::ErrorKind::Other, "x").into();
    assert!(matches!(e, BiblioError::IOError(_)));
}

#[test]
fn question_mark_converts_errors() {
    fn parse(text: &str) -> Result<serde_json::Value, BiblioError> {
        Ok(serde_json::from_str(text)?)
    }
    assert!(parse("[]").is_ok());
    assert!(matches!(parse("nonsense"), Err(BiblioError::JSONError(_))));
}

#[test]
fn metadata_fields_may_be_absent() {
    let data = BiblioResponse { authors: None, title: None, year: None };
    assert!(data.authors.is_none() && data.title.is_none() && data.year.is_none());
    let shown = format!("{:?}", data);
    assert!(shown.contains("BiblioResponse"));
}
