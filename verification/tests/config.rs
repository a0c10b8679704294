use biblio::constants::{
    BATCH_SIZE, DEFAULT_FORMAT, DOCUMENT_EXTENSION, MAX_OUTPUT_TOKENS, MAX_TIMEOUT_SECONDS,
    RESPONSE_MIME_TYPE, TEMPERATURE_HUNDREDTHS, TOP_K, TOP_P_HUNDREDTHS,
};
use biblio::{load_config, BiblioError};

fn some(s: &str) -> Option<String> {
    Some(s.to_string())
}

#[test]
fn config_with_every_setting() {
    let config = load_config(some("gemini-pro"), some("SECRET-REDACTED"), some("{title}")).unwrap();
    assert_eq!(config.model, "gemini-pro");
    assert_eq!(config.api_key, "SECRET-REDACTED");
    assert_eq!(config.format, "{title}");
}

#[test]
fn config_without_format_uses_the_default() {
    let config = load_config(some("m"), some("k"), None).unwrap();
    assert_eq!(config.format, "{authors} ({year}). {title}");
    assert_eq!(config.format, DEFAULT_FORMAT);
}

#[test]
fn config_without_model_fails() {
    match load_config(None, some("k"), some("f")) {
        Err(BiblioError::ENVError(text)) => assert_eq!(text, "MODEL key not found in .env file"),
        other => panic!("unexpected: {:?}", other),
    }
}

#[test]
fn config_without_key_fails() {
    match load_config(some("m"), None, None) {
        Err(BiblioError::ENVError(text)) => assert_eq!(text, "API_KEY not found in .env file"),
        other => panic!("unexpected: {:?}", other),
    }
}

#[test]
fn config_asks_for_the_model_first() {
    match load_config(None, None, None) {
        Err(BiblioError::ENVError(text)) => assert_eq!(text, "MODEL key not found in .env file"),
        other => panic!("unexpected: {:?}", other),
    }
}

#[test]
fn config_can_be_cloned() {
    let config = load_config(some("m"), some("k"), some("f")).unwrap();
    let copy = config.clone();
    assert_eq!(copy.model, "m");
    assert_eq!(copy.api_key, "k");
    assert_eq!(copy.format, "f");
}

#[test]
fn constants_have_their_values() {
    assert_eq!(BATCH_SIZE, 5);
    assert_eq!(MAX_TIMEOUT_SECONDS, 30);
    assert_eq!(TEMPERATURE_HUNDREDTHS, 20);
    assert_eq!(TOP_P_HUNDREDTHS, 95);
    assert_eq!(TOP_K, 64);
    assert_eq!(MAX_OUTPUT_TOKENS, 512);
    assert_eq!(RESPONSE_MIME_TYPE, "application/json");
    assert_eq!(DOCUMENT_EXTENSION, ".pdf");
}

#[test]
fn sampling_settings_convert_to_fractions() {
    assert_eq!(TEMPERATURE_HUNDREDTHS as f32 / 100.0, 0.2f32);
    assert_eq!(TOP_P_HUNDREDTHS as f32 / 100.0, 0.95f32);
}
