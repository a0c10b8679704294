use biblio::sampler::{document_or_failure, extract_failure, load_failure, text_or_failure};
use biblio::text::chars_of;
use biblio::BiblioError;
use lopdf::content::{Content, Operation};
use lopdf::{Dictionary, Document, Object, Stream};

fn name(s: &str) -> Object {
    Object::Name(s.as_bytes().to_vec())
}

fn one_page_pdf(line: &str) -> Vec<u8> {
    let mut doc = Document::with_version("1.5");
    let pages_id = doc.new_object_id();
    let mut font = Dictionary::new();
    font.set("Type", name("Font"));
    font.set("Subtype", name("Type1"));
    font.set("BaseFont", name("Courier"));
    let font_id = doc.add_object(font);
    let mut fonts = Dictionary::new();
    fonts.set("F1", Object::Reference(font_id));
    let mut resources = Dictionary::new();
    resources.set("Font", Object::Dictionary(fonts));
    let resources_id = doc.add_object(resources);
    let content = Content {
        operations: vec![
            Operation::new("BT", vec![]),
            Operation::new("Tf", vec![name("F1"), Object::Integer(48)]),
            Operation::new("Td", vec![Object::Integer(100), Object::Integer(600)]),
            Operation::new("Tj", vec![Object::string_literal(line)]),
            Operation::new("ET", vec![]),
        ],
    };
    let content_id = doc.add_object(Stream::new(Dictionary::new(), content.encode().unwrap()));
    let mut page = Dictionary::new();
    page.set("Type", name("Page"));
    page.set("Parent", Object::Reference(pages_id));
    page.set("Contents", Object::Reference(content_id));
    let page_id = doc.add_object(page);
    let mut pages = Dictionary::new();
    pages.set("Type", name("Pages"));
    pages.set("Kids", Object::Array(vec![Object::Reference(page_id)]));
    pages.set("Count", Object::Integer(1));
    pages.set("Resources", Object::Reference(resources_id));
    pages.set(
        "MediaBox",
        Object::Array(vec![
            Object::Integer(0),
            Object::Integer(0),
            Object::Integer(595),
            Object::Integer(842),
        ]),
    );
    doc.objects.insert(pages_id, Object::Dictionary(pages));
    let mut catalog = Dictionary::new();
    catalog.set("Type", name("Catalog"));
    catalog.set("Pages", Object::Reference(pages_id));
    let catalog_id = doc.add_object(catalog);
    doc.trailer.set("Root", Object::Reference(catalog_id));
    let mut bytes = Vec::new();
    doc.save_to(&mut bytes).unwrap();
    bytes
}

fn sample_from_bytes(data: &[u8], pages: &[u32]) -> Result<String, BiblioError> {
    let doc = document_or_failure(Document::load_mem(data))?;
    text_or_failure(doc.extract_text(pages))
}

#[test]
fn text_of_a_page_is_extracted() {
    let bytes = one_page_pdf("Hello World!");
    let text = sample_from_bytes(&bytes, &[1]).unwrap();
    assert!(text.contains("Hello World!"));
}

#[test]
fn extraction_returns_what_the_reader_returns() {
    let bytes = one_page_pdf("On Things, by J. Doe (2020)");
    let direct = Document::load_mem(&bytes).unwrap().extract_text(&[1]).unwrap();
    assert_eq!(sample_from_bytes(&bytes, &[1]).unwrap(), direct);
    assert_ne!(direct, "");
}

#[test]
fn no_pages_give_no_text() {
    let bytes = one_page_pdf("Hello World!");
    assert_eq!(sample_from_bytes(&bytes, &[]).unwrap(), "");
}

#[test]
fn bytes_that_are_no_pdf_fail_to_load() {
    match sample_from_bytes(b"this is not a PDF file", &[1, 2]) {
        Err(BiblioError::PDFError(message)) => {
            assert!(message.starts_with("Failed to load PDF: "), "{}", message)
        }
        other => panic!("unexpected: {:?}", other),
    }
}

#[test]
fn empty_file_fails_to_load() {
    match sample_from_bytes(&[], &[1, 2]) {
        Err(BiblioError::PDFError(message)) => {
            assert!(message.starts_with("Failed to load PDF: "), "{}", message)
        }
        other => panic!("unexpected: {:?}", other),
    }
}

#[test]
fn missing_page_fails_to_extract() {
    let bytes = one_page_pdf("Hello World!");
    match sample_from_bytes(&bytes, &[1, 2]) {
        Err(BiblioError::PDFError(message)) => {
            assert_eq!(message, "Failed to extract text: page number not found")
        }
        other => panic!("unexpected: {:?}", other),
    }
}

#[test]
fn failures_name_their_step() {
    match load_failure("IO error") {
        BiblioError::PDFError(message) => assert_eq!(message, "Failed to load PDF: IO error"),
        other => panic!("unexpected: {:?}", other),
    }
    match extract_failure("page number not found") {
        BiblioError::PDFError(message) => {
            assert_eq!(message, "Failed to extract text: page number not found")
        }
        other => panic!("unexpected: {:?}", other),
    }
}

#[test]
fn characters_of_a_text() {
    assert_eq!(chars_of("a{é}"), vec!['a', '{', 'é', '}']);
    assert!(chars_of("").is_empty());
}

#[test]
fn extracted_text_is_handed_on_unchanged() {
    assert_eq!(text_or_failure(Ok("Hello World!\n".to_string())).unwrap(), "Hello World!\n");
    assert_eq!(text_or_failure(Ok(String::new())).unwrap(), "");
}

#[test]
fn extraction_error_becomes_a_pdf_error() {
    match text_or_failure(Err(lopdf::Error::PageNumberNotFound(7))) {
        Err(BiblioError::PDFError(message)) => {
            assert_eq!(message, "Failed to extract text: page number not found")
        }
        other => panic!("unexpected: {:?}", other),
    }
    match text_or_failure(Err(lopdf::Error::Syntax("missing font operand".to_string()))) {
        Err(BiblioError::PDFError(message)) => assert_eq!(
            message,
            "Failed to extract text: syntax error in content stream: missing font operand"
        ),
        other => panic!("unexpected: {:?}", other),
    }
}

#[test]
fn loaded_document_is_handed_on_unchanged() {
    let bytes = one_page_pdf("Kept as loaded");
    let direct = Document::load_mem(&bytes).unwrap().extract_text(&[1]).unwrap();
    let doc = document_or_failure(Document::load_mem(&bytes)).unwrap();
    assert_eq!(doc.extract_text(&[1]).unwrap(), direct);
    assert!(direct.contains("Kept as loaded"));
}

#[test]
fn loading_error_becomes_a_pdf_error() {
    let io = std::io::Error::new(std::io::ErrorKind::NotFound, "gone");
    match document_or_failure(Err(lopdf::Error::from(io))) {
        Err(BiblioError::PDFError(message)) => assert_eq!(message, "Failed to load PDF: IO error"),
        other => panic!("unexpected: {:?}", other.map(|_| "a document")),
    }
    match document_or_failure(Err(lopdf::Error::InvalidPassword)) {
        Err(BiblioError::PDFError(message)) => {
            assert_eq!(message, "Failed to load PDF: invalid password for encrypted PDF")
        }
        other => panic!("unexpected: {:?}", other.map(|_| "a document")),
    }
}
