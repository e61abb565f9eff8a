//! The OpenAI client's configuration and endpoint URLs. The HTTP
//! dispatch and the typed JSON decoding are the I/O shell's business.

use vstd::prelude::*;
use vstd::string::StringExecFns;

use crate::error::{AiError, AiResult};
use crate::openai::model::OpenAIModel;
use crate::utils::ClientConfig;

verus! {

/// The OpenAI API's base URL.
pub open spec fn base_url_spec() -> Seq<char> {
    "https://api.openai.com/v1"@
}

/// Collects the API key and timeout of an OpenAI client. It holds an
/// API key, so it deliberately has no `Debug` form.
#[derive(Clone)]
pub struct OpenAIClientBuilder {
    api_key: Option<String>,
    timeout: Option<u64>,
}

impl OpenAIClientBuilder {
    /// The key collected so far.
    pub closed spec fn api_key_spec(&self) -> Option<Seq<char>> {
        match self.api_key {
            Some(k) => Some(k@),
            None => None,
        }
    }

    /// The timeout collected so far, in seconds.
    pub closed spec fn timeout_spec(&self) -> Option<u64> {
        self.timeout
    }

    /// Sets the API key.
    pub fn api_key(self, api_key: String) -> (r: Self)
        ensures
            r.api_key_spec() == Some(api_key@),
            r.timeout_spec() == self.timeout_spec(),
    {
        OpenAIClientBuilder { api_key: Some(api_key), timeout: self.timeout }
    }

    /// Sets the request timeout in seconds.
    pub fn timeout(self, timeout: u64) -> (r: Self)
        ensures
            r.api_key_spec() == self.api_key_spec(),
            r.timeout_spec() == Some(timeout),
    {
        OpenAIClientBuilder { api_key: self.api_key, timeout: Some(timeout) }
    }

    /// Resolves the builder: a configuration exactly when an API key was
    /// set, and `MissingApiKey` otherwise.
    pub fn build_config(self) -> (r: AiResult<ClientConfig>)
        ensures
            r is Ok <==> self.api_key_spec() is Some,
            r matches Ok(c) ==> Some(c.api_key@) == self.api_key_spec() && c.timeout
                == self.timeout_spec(),
            r matches Err(e) ==> e is MissingApiKey,
    {
        match self.api_key {
            Some(api_key) => Ok(ClientConfig { api_key, timeout: self.timeout }),
            None => Err(AiError::MissingApiKey),
        }
    }
}

impl Default for OpenAIClientBuilder {
    /// A builder with nothing set.
    fn default() -> (r: Self)
        ensures
            r.api_key_spec() is None,
            r.timeout_spec() is None,
    {
        OpenAIClientBuilder { api_key: None, timeout: None }
    }
}

/// The model-listing endpoint.
pub fn models_url() -> (r: String)
    ensures
        r@ == base_url_spec() + "/models"@,
{
    let mut s = "https://api.openai.com/v1".to_owned();
    s.append("/models");
    s
}

/// The model-details endpoint of one model.
pub fn model_url(model: &OpenAIModel) -> (r: String)
    ensures
        r@ == base_url_spec() + "/models/"@ + model.name_spec(),
{
    let mut s = "https://api.openai.com/v1".to_owned();
    s.append("/models/");
    let n = model.name();
    s.append(n.as_str());
    s
}

/// The chat-completions endpoint.
pub fn chat_completions_url() -> (r: String)
    ensures
        r@ == base_url_spec() + "/chat/completions"@,
{
    let mut s = "https://api.openai.com/v1".to_owned();
    s.append("/chat/completions");
    s
}

/// The responses endpoint.
pub fn responses_url() -> (r: String)
    ensures
        r@ == base_url_spec() + "/responses"@,
{
    let mut s = "https://api.openai.com/v1".to_owned();
    s.append("/responses");
    s
}

} // verus!
