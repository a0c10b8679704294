//! Fixed values of the inference request and of the pipeline.

use vstd::prelude::*;

verus! {

/// The instructions that accompany every inference request.
pub const PROMPT: &'static str = r#"
    You are biblio, an intelligent assistant designed to extract specific information from text. Your task is to extract the author names, title, and year from the given text and return the information in JSON format.

    ### Instructions:
    - **Single Document Focus:** Each text corresponds to one document. Extract only one set of information per text.
    - **Extract Key Information:** For each document, extract:
        - **Authors:** Normalize cases and format in APA style: 'Last Name, F. M.'
        - **Title:** Normalize cases and separate titles and subtitles with a colon.
        - **Year:** Year of publication.
    - **Output Format:** Return the extracted information as an array of JSON objects:
    ```json
    [
        {
            "authors": [<Author Name 1>, <Author Name 2>],
            "title": <Title of the Paper>,
            "year": <Year of Publication>
        }
    ]
    ```
    - **Order Preservation:** Preserve the order of the input documents in the output array.
    - **Missing Information:** If any information is missing, leave the field empty or omit it.
    - **Avoid Hallucination:** Do not inject or fabricate content. Stick strictly to the provided text.
"#;

/// Seconds after which one inference call is given up.
pub const MAX_TIMEOUT_SECONDS: u64 = 30;

/// Sampling temperature, in hundredths.
pub const TEMPERATURE_HUNDREDTHS: u32 = 20;

/// Nucleus sampling mass, in hundredths.
pub const TOP_P_HUNDREDTHS: u32 = 95;

/// Number of candidate tokens that sampling considers.
pub const TOP_K: i32 = 64;

/// Upper limit of the tokens in one answer.
pub const MAX_OUTPUT_TOKENS: i32 = 512;

/// Number of samples that go into one inference call.
pub const BATCH_SIZE: usize = 5;

/// The media type asked of the answer.
pub const RESPONSE_MIME_TYPE: &'static str = "application/json";

/// The extension that every destination file name ends in.
pub const DOCUMENT_EXTENSION: &'static str = ".pdf";

/// The template used where none is configured.
pub const DEFAULT_FORMAT: &'static str = "{authors} ({year}). {title}";

} // verus!
