//! The Gemini client's configuration and endpoint URLs. The HTTP
//! dispatch itself is the I/O shell's business; what is decided here —
//! which key and timeout a builder resolves to, and which URL each
//! endpoint has — carries exact contracts.

use vstd::prelude::*;
use vstd::string::StringExecFns;

use crate::error::{AiError, AiResult};
use crate::gemini::model::Model;
use crate::utils::ClientConfig;

verus! {

/// The Gemini API's base URL.
pub open spec fn base_url_spec() -> Seq<char> {
    "https://generativelanguage.googleapis.com/v1"@
}

/// Collects the API key and timeout of a Gemini client. It holds an
/// API key, so it deliberately has no `Debug` form.
#[derive(Clone)]
pub struct GeminiClientBuilder {
    api_key: Option<String>,
    timeout: Option<u64>,
}

impl GeminiClientBuilder {
    /// The key collected so far.
    pub closed spec fn api_key_spec(&self) -> Option<Seq<char>> {
        match self.api_key {
            Some(k) => Some(k@),
            None => None,
        }
    }

    /// The timeout collected so far, in seconds.
    pub closed spec fn timeout_spec(&self) -> Option<u64> {
        self.timeout
    }

    /// Sets the API key.
    pub fn api_key(self, api_key: String) -> (r: Self)
        ensures
            r.api_key_spec() == Some(api_key@),
            r.timeout_spec() == self.timeout_spec(),
    {
        GeminiClientBuilder { api_key: Some(api_key), timeout: self.timeout }
    }

    /// Sets the request timeout in seconds.
    pub fn timeout(self, timeout: u64) -> (r: Self)
        ensures
            r.api_key_spec() == self.api_key_spec(),
            r.timeout_spec() == Some(timeout),
    {
        GeminiClientBuilder { api_key: self.api_key, timeout: Some(timeout) }
    }

    /// Resolves the builder: a configuration exactly when an API key was
    /// set, and `MissingApiKey` otherwise.
    pub fn build_config(self) -> (r: AiResult<ClientConfig>)
        ensures
            r is Ok <==> self.api_key_spec() is Some,
            r matches Ok(c) ==> Some(c.api_key@) == self.api_key_spec() && c.timeout
                == self.timeout_spec(),
            r matches Err(e) ==> e is MissingApiKey,
    {
        match self.api_key {
            Some(api_key) => Ok(ClientConfig { api_key, timeout: self.timeout }),
            None => Err(AiError::MissingApiKey),
        }
    }
}

impl Default for GeminiClientBuilder {
    /// A builder with nothing set.
    fn default() -> (r: Self)
        ensures
            r.api_key_spec() is None,
            r.timeout_spec() is None,
    {
        GeminiClientBuilder { api_key: None, timeout: None }
    }
}

/// The model-listing endpoint.
pub fn models_url() -> (r: String)
    ensures
        r@ == base_url_spec() + "/models"@,
{
    let mut s = "https://generativelanguage.googleapis.com/v1".to_owned();
    s.append("/models");
    s
}

/// The model-details endpoint of one model.
pub fn model_url(model: &Model) -> (r: String)
    ensures
        r@ == base_url_spec() + "/"@ + ("models/"@ + model.name_spec()),
{
    let mut s = "https://generativelanguage.googleapis.com/v1".to_owned();
    s.append("/");
    let p = model.path();
    s.append(p.as_str());
    s
}

/// The token-counting endpoint of one model.
pub fn count_tokens_url(model: &Model) -> (r: String)
    ensures
        r@ == base_url_spec() + "/"@ + ("models/"@ + model.name_spec()) + ":countTokens"@,
{
    let mut s = model_url(model);
    s.append(":countTokens");
    s
}

/// The generation endpoint of one model.
pub fn generate_content_url(model: &Model) -> (r: String)
    ensures
        r@ == base_url_spec() + "/"@ + ("models/"@ + model.name_spec()) + ":generateContent"@,
{
    let mut s = model_url(model);
    s.append(":generateContent");
    s
}

/// The streaming generation endpoint of one model.
pub fn stream_generate_content_url(model: &Model) -> (r: String)
    ensures
        r@ == base_url_spec() + "/"@ + ("models/"@ + model.name_spec())
            + ":streamGenerateContent"@,
{
    let mut s = model_url(model);
    s.append(":streamGenerateContent");
    s
}

} // verus!
