//! The configuration of a run, made from values that the caller has read.

use vstd::prelude::*;
use crate::biblio::BiblioError;
use crate::constants::DEFAULT_FORMAT;

verus! {

/// Configuration for the application.
#[derive(Clone, Debug)]
pub struct Config {
    pub format: String,
    pub model: String,
    pub api_key: String,
}

/// Makes the configuration from the settings `MODEL`, `API_KEY` and `FORMAT`,
/// each as the caller found it. A run cannot start without a model and a
/// key: the model is asked for first. A missing template is replaced by the
/// default one.
pub fn load_config(model: Option<String>, api_key: Option<String>, format: Option<String>) -> (r:
    Result<Config, BiblioError>)
    ensures
        model is None ==> {
            &&& r matches Err(BiblioError::ENVError(text))
            &&& text@ == "MODEL key not found in .env file"@
        },
        model is Some && api_key is None ==> {
            &&& r matches Err(BiblioError::ENVError(text))
            &&& text@ == "API_KEY not found in .env file"@
        },
        model is Some && api_key is Some ==> {
            &&& r matches Ok(config)
            &&& config.model == model->0
            &&& config.api_key == api_key->0
            &&& config.format@ == match format {
                Some(f) => f@,
                None => DEFAULT_FORMAT@,
            }
        },
{
    let model_name = match model {
        Some(m) => m,
        None => {
            return Err(BiblioError::ENVError("MODEL key not found in .env file".to_string()));
        },
    };
    let api_key = match api_key {
        Some(k) => k,
        None => {
            return Err(BiblioError::ENVError("API_KEY not found in .env file".to_string()));
        },
    };
    let format_string = match format {
        Some(f) => f,
        None => DEFAULT_FORMAT.to_string(),
    };
    Ok(Config { format: format_string, model: model_name, api_key })
}

} // verus!
