//! Where the model is reached and with which key.
use vstd::prelude::*;

use crate::text::{is_trimmed, lemma_trimmed_is_trimmed, trim, trimmed};

verus! {

/// The settings of the chat endpoint.
#[derive(Clone, Debug, PartialEq, Eq)]
pub struct Config {
    pub api_key: Option<String>,
    pub base_url: String,
    pub model: String,
}

/// What a configuration is.
pub struct ConfigView {
    pub api_key: Option<Seq<char>>,
    pub base_url: Seq<char>,
    pub model: Seq<char>,
}

impl View for Config {
    type V = ConfigView;

    open spec fn view(&self) -> ConfigView {
        ConfigView {
            api_key: self.api_key.deep_view(),
            base_url: self.base_url@,
            model: self.model@,
        }
    }
}

/// The variable that holds the API key.
pub const API_KEY_VAR: &'static str = "OPENAI_API_KEY";

/// The variable that holds the endpoint's base URL.
pub const BASE_URL_VAR: &'static str = "OPENAI_BASE_URL";

/// The variable that holds the model's name.
pub const MODEL_VAR: &'static str = "OPENAI_MODEL";

/// A setting's value: the text without surrounding white space, or `None`
/// where it is missing or blank.
pub open spec fn nonempty_view(value: Option<Seq<char>>) -> Option<Seq<char>> {
    match value {
        Some(s) => if trimmed(s).len() == 0 {
            None
        } else {
            Some(trimmed(s))
        },
        None => None,
    }
}

/// A setting's value, or the default where it is missing or blank.
pub open spec fn setting_or(value: Option<Seq<char>>, default: Seq<char>) -> Seq<char> {
    match nonempty_view(value) {
        Some(s) => s,
        None => default,
    }
}

/// The configuration that the three raw values give.
pub open spec fn config_of(
    api_key: Option<Seq<char>>,
    base_url: Option<Seq<char>>,
    model: Option<Seq<char>>,
) -> ConfigView {
    ConfigView {
        api_key: nonempty_view(api_key),
        base_url: setting_or(base_url, Config::DEFAULT_BASE_URL@),
        model: setting_or(model, Config::DEFAULT_MODEL@),
    }
}

impl Config {
    pub const DEFAULT_BASE_URL: &'static str = "https://api.openai.com/v1";

    pub const DEFAULT_MODEL: &'static str = "gpt-4.1-mini";

    /// The configuration that the raw values of the three variables give:
    /// each value trimmed, a blank one taken as missing, and a missing base
    /// URL or model replaced by its default.
    pub fn from_values(
        api_key: Option<String>,
        base_url: Option<String>,
        model: Option<String>,
    ) -> (res: Self)
        ensures
            res@ == config_of(api_key.deep_view(), base_url.deep_view(), model.deep_view()),
    {
        let api_key = nonempty(api_key);
        let base_url = match nonempty(base_url) {
            Some(s) => s,
            None => Self::DEFAULT_BASE_URL.to_string(),
        };
        let model = match nonempty(model) {
            Some(s) => s,
            None => Self::DEFAULT_MODEL.to_string(),
        };
        Config { api_key, base_url, model }
    }

    /// The configuration read through `get`, which gives the raw value of a
    /// variable by its name.
    pub fn from_get<F>(mut get: F) -> (res: Self) where F: FnMut(&str) -> Option<String>
        requires
            forall|name: &str| call_requires(get, (name,)),
        ensures
            exists|a: Option<String>, b: Option<String>, m: Option<String>|
                {
                    &&& #[trigger] call_ensures(get, (API_KEY_VAR,), a)
                    &&& #[trigger] call_ensures(get, (BASE_URL_VAR,), b)
                    &&& #[trigger] call_ensures(get, (MODEL_VAR,), m)
                    &&& res@ == config_of(a.deep_view(), b.deep_view(), m.deep_view())
                },
    {
        let api_key = get(API_KEY_VAR);
        let base_url = get(BASE_URL_VAR);
        let model = get(MODEL_VAR);
        Self::from_values(api_key, base_url, model)
    }
}

/// The value without surrounding white space, `None` where it is missing or
/// blank.
pub fn nonempty(value: Option<String>) -> (res: Option<String>)
    ensures
        res.deep_view() == nonempty_view(value.deep_view()),
{
    match value {
        Some(s) => {
            let t = trim(s.as_str());
            if t.unicode_len() == 0 {
                None
            } else {
                Some(t.to_string())
            }
        },
        None => None,
    }
}

/// Every setting of a configuration is free of surrounding white space, the
/// base URL and the model are never empty, and a key that is there is not
/// empty either.
pub proof fn config_values_are_trimmed_and_present(
    api_key: Option<Seq<char>>,
    base_url: Option<Seq<char>>,
    model: Option<Seq<char>>,
)
    ensures
        ({
            let c = config_of(api_key, base_url, model);
            &&& c.api_key matches Some(k) ==> k.len() > 0 && is_trimmed(k)
            &&& c.base_url.len() > 0 && is_trimmed(c.base_url)
            &&& c.model.len() > 0 && is_trimmed(c.model)
        }),
{
    reveal_strlit("https://api.openai.com/v1");
    reveal_strlit("gpt-4.1-mini");
    if let Some(s) = api_key {
        lemma_trimmed_is_trimmed(s);
    }
    if let Some(s) = base_url {
        lemma_trimmed_is_trimmed(s);
    }
    if let Some(s) = model {
        lemma_trimmed_is_trimmed(s);
    }
}

} // verus!
