use vstd::prelude::*;

verus! {

/// Environment variable that holds the API key.
pub const API_KEY_VAR: &'static str = "MINIMAX_API_KEY";

/// Environment variable that overrides the API base URL.
pub const BASE_URL_VAR: &'static str = "MINIMAX_BASE_URL";

/// Environment variable that overrides the model name.
pub const MODEL_VAR: &'static str = "MINIMAX_MODEL";

/// The base URL used when none is configured.
pub open spec fn default_base_url() -> Seq<char> {
    "https://api.minimax.io/anthropic/v1"@
}

/// The model used when none is configured.
pub open spec fn default_model() -> Seq<char> {
    "MiniMax-M2.7"@
}

/// Configuration for direct MiniMax API access.
#[derive(Clone, Debug)]
pub struct DirectMinimaxConfig {
    pub api_key: String,
    pub base_url: String,
    pub model: String,
}

/// `value` if it is present, else `default`.
pub open spec fn or_default(value: Option<String>, default: Seq<char>) -> Seq<char> {
    match value {
        Some(v) => v@,
        None => default,
    }
}

impl DirectMinimaxConfig {
    /// `c` is the configuration read from these values: the API key, and
    /// the base URL and model or their defaults.
    pub open spec fn from_env_spec(
        api_key: Option<String>,
        base_url: Option<String>,
        model: Option<String>,
        c: DirectMinimaxConfig,
    ) -> bool {
        &&& api_key matches Some(k) && c.api_key@ == k@
        &&& c.base_url@ == or_default(base_url, default_base_url())
        &&& c.model@ == or_default(model, default_model())
    }

    /// Builds the configuration from the values of the three environment
    /// variables (`None` where a variable is unset or not valid Unicode).
    /// There is no configuration without an API key; the base URL and the
    /// model fall back to their defaults.
    pub fn from_env(api_key: Option<String>, base_url: Option<String>, model: Option<String>) -> (r: Option<Self>)
        ensures
            r is Some <==> api_key is Some,
            r matches Some(c) ==> Self::from_env_spec(api_key, base_url, model, c),
    {
        let api_key = match api_key {
            Some(k) => k,
            None => return None,
        };
        let base_url = match base_url {
            Some(b) => b,
            None => String::from_str("https://api.minimax.io/anthropic/v1"),
        };
        let model = match model {
            Some(m) => m,
            None => String::from_str("MiniMax-M2.7"),
        };
        Some(DirectMinimaxConfig { api_key, base_url, model })
    }
}

} // verus!
