//! The settings of an OpenAI-compatible chat endpoint and the errors a call
//! to it can end in.
use vstd::prelude::*;

use crate::config::Config;
use crate::text::{decimal, push_decimal, strip_trailing, trim_end_char};

verus! {

/// Why a model call failed.
#[derive(Debug)]
pub enum ProviderError {
    MissingApiKey,
    Http(String),
    Api { status: u16, body: String },
    InvalidResponse(String),
}

/// The message of a provider error.
pub open spec fn provider_error_text(err: ProviderError) -> Seq<char> {
    match err {
        ProviderError::MissingApiKey => "OPENAI_API_KEY is required to call a model"@,
        ProviderError::Http(s) => "http error: "@ + s@,
        ProviderError::Api { status, body } => "api error ("@ + decimal(status as int) + "): "@
            + body@,
        ProviderError::InvalidResponse(s) => "invalid response: "@ + s@,
    }
}

impl ProviderError {
    /// The message of the error.
    pub fn message(&self) -> (res: String)
        ensures
            res@ == provider_error_text(*self),
    {
        let mut out = String::new();
        match self {
            ProviderError::MissingApiKey => {
                out.append("OPENAI_API_KEY is required to call a model");
            },
            ProviderError::Http(s) => {
                out.append("http error: ");
                out.append(s.as_str());
            },
            ProviderError::Api { status, body } => {
                out.append("api error (");
                push_decimal(&mut out, *status as i64);
                out.append("): ");
                out.append(body.as_str());
            },
            ProviderError::InvalidResponse(s) => {
                out.append("invalid response: ");
                out.append(s.as_str());
            },
        }
        proof {
            reveal_strlit("OPENAI_API_KEY is required to call a model");
            reveal_strlit("http error: ");
            reveal_strlit("api error (");
            reveal_strlit("): ");
            reveal_strlit("invalid response: ");
            assert(out@ =~= provider_error_text(*self));
        }
        out
    }
}

/// What a call to the chat endpoint needs besides the HTTP client: the key,
/// the base URL without trailing slashes, and the model.
#[derive(Clone, Debug, PartialEq, Eq)]
pub struct OpenAiSettings {
    pub api_key: String,
    pub base_url: String,
    pub model: String,
}

/// The path of the chat completions endpoint below the base URL.
pub open spec fn completions_path() -> Seq<char> {
    "/chat/completions"@
}

impl OpenAiSettings {
    /// The settings for a configuration: refused with `MissingApiKey` where
    /// it has no key; otherwise its key and model, and its base URL with
    /// every trailing `/` removed.
    pub fn from_config(config: &Config) -> (res: Result<Self, ProviderError>)
        ensures
            config.api_key is None <==> res is Err,
            res matches Err(e) ==> e is MissingApiKey,
            res matches Ok(s) ==> {
                &&& Some(s.api_key@) == config.api_key.deep_view()
                &&& s.base_url@ == strip_trailing(config.base_url@, '/')
                &&& s.model@ == config.model@
            },
    {
        let api_key = match &config.api_key {
            Some(k) => k.clone(),
            None => {
                return Err(ProviderError::MissingApiKey);
            },
        };
        let base_url = trim_end_char(config.base_url.as_str(), '/').to_string();
        Ok(OpenAiSettings { api_key, base_url, model: config.model.clone() })
    }

    /// The URL of the chat completions endpoint.
    pub fn completions_url(&self) -> (res: String)
        ensures
            res@ == self.base_url@ + completions_path(),
    {
        let mut url = self.base_url.clone();
        url.append("/chat/completions");
        proof {
            reveal_strlit("/chat/completions");
        }
        url
    }
}

/// Whether an HTTP status is a success: `200..=299`, as
/// `StatusCode::is_success` has it.
pub open spec fn is_success_status(status: u16) -> bool {
    200 <= status <= 299
}

/// The body of a reply whose status is a success; for any other status the
/// `Api` error with the status and the body.
pub fn success_body(status: u16, body: String) -> (res: Result<String, ProviderError>)
    ensures
        match res {
            Ok(b) => is_success_status(status) && b == body,
            Err(e) => !is_success_status(status) && e == (ProviderError::Api { status, body }),
        },
{
    if 200 <= status && status <= 299 {
        Ok(body)
    } else {
        Err(ProviderError::Api { status, body })
    }
}

} // verus!
