//! The inference call, as plain values: what is asked of the service, and
//! what is read out of its answer.

use vstd::prelude::*;
use vstd::string::StringExecFns;
use crate::biblio::BiblioError;
use crate::constants::{
    MAX_OUTPUT_TOKENS,
    PROMPT,
    RESPONSE_MIME_TYPE,
    TEMPERATURE_HUNDREDTHS,
    TOP_K,
    TOP_P_HUNDREDTHS,
};

verus! {

/// One request to the inference service. Each entry of `contents` is the
/// text of one user message, and the service is asked to answer them in the
/// same order.
#[derive(Debug)]
pub struct ApiRequest {
    pub contents: Vec<String>,
    pub temperature_hundredths: u32,
    pub top_p_hundredths: u32,
    pub top_k: i32,
    pub max_output_tokens: i32,
    pub response_mime_type: String,
    pub system_instruction: String,
}

/// Builds the request for a list of samples: one message per sample, in the
/// order given, with the fixed instructions and generation settings.
pub fn build_api_request(samples: Vec<String>) -> (request: ApiRequest)
    ensures
        request.contents == samples,
        request.temperature_hundredths == TEMPERATURE_HUNDREDTHS,
        request.top_p_hundredths == TOP_P_HUNDREDTHS,
        request.top_k == TOP_K,
        request.max_output_tokens == MAX_OUTPUT_TOKENS,
        request.response_mime_type@ == RESPONSE_MIME_TYPE@,
        request.system_instruction@ == PROMPT@,
{
    ApiRequest {
        contents: samples,
        temperature_hundredths: TEMPERATURE_HUNDREDTHS,
        top_p_hundredths: TOP_P_HUNDREDTHS,
        top_k: TOP_K,
        max_output_tokens: MAX_OUTPUT_TOKENS,
        response_mime_type: RESPONSE_MIME_TYPE.to_string(),
        system_instruction: PROMPT.to_string(),
    }
}

/// The text that an answer carries: that of the first part of its first
/// candidate. `candidates` holds, for each candidate, the texts of its parts.
pub open spec fn first_text(candidates: Option<Vec<Vec<Option<String>>>>) -> Option<String> {
    match candidates {
        Some(c) => if c@.len() > 0 && c@[0]@.len() > 0 {
            c@[0]@[0]
        } else {
            None
        },
        None => None,
    }
}

/// Reads the text out of an answer. An answer without candidates, a first
/// candidate without parts and a first part without text all give the empty
/// text.
pub fn response_text(candidates: &Option<Vec<Vec<Option<String>>>>) -> (text: String)
    ensures
        text@ == match first_text(*candidates) {
            Some(t) => t@,
            None => Seq::<char>::empty(),
        },
{
    match candidates {
        Some(c) => {
            if c.len() > 0 && c[0].len() > 0 {
                match &c[0][0] {
                    Some(t) => t.clone(),
                    None => String::new(),
                }
            } else {
                String::new()
            }
        },
        None => String::new(),
    }
}

/// The error of an inference call that did not get through.
pub fn connection_failure(cause: &str) -> (e: BiblioError)
    ensures
        e matches BiblioError::GeminiError(text) && text@ == "Could not connect to Gemini: "@
            + cause@,
{
    let mut text = "Could not connect to Gemini: ".to_string();
    text.append(cause);
    BiblioError::GeminiError(text)
}

} // verus!
