//! Plain request and response shapes of the Gemini model-listing and
//! token-counting endpoints.

use vstd::prelude::*;

use crate::utils::{dec_rep_signed, i32_to_dec, IntoQuery};

verus! {

/// Paging parameters of the model-listing endpoint.
#[derive(Debug, Clone)]
pub struct ModelsListRequest {
    pub page_token: Option<String>,
    pub page_size: Option<i32>,
}

impl Default for ModelsListRequest {
    /// No paging parameters.
    fn default() -> (r: Self)
        ensures
            r.page_token is None,
            r.page_size is None,
    {
        ModelsListRequest { page_token: None, page_size: None }
    }
}

impl IntoQuery for ModelsListRequest {
    /// `pageToken` first when present, then `pageSize` in decimal.
    open spec fn query_model(self) -> Seq<(Seq<char>, Seq<char>)> {
        let q0 = Seq::<(Seq<char>, Seq<char>)>::empty();
        let q1 = match self.page_token {
            Some(t) => q0.push(("pageToken"@, t@)),
            None => q0,
        };
        match self.page_size {
            Some(n) => q1.push(("pageSize"@, dec_rep_signed(n as int))),
            None => q1,
        }
    }

    fn into_query(self) -> (r: Vec<(String, String)>)
        ensures
            r@.map_values(|p: (String, String)| (p.0@, p.1@)) == self.query_model(),
    {
        let ghost model = self.query_model();
        let mut q: Vec<(String, String)> = Vec::new();
        match self.page_token {
            Some(t) => {
                q.push(("pageToken".to_owned(), t));
            },
            None => {},
        }
        match self.page_size {
            Some(n) => {
                q.push(("pageSize".to_owned(), i32_to_dec(n)));
            },
            None => {},
        }
        proof {
            assert(q@.map_values(|p: (String, String)| (p.0@, p.1@)) =~= model);
        }
        q
    }
}

/// The count handed back by the token-counting endpoint.
#[derive(Debug, Clone, Copy, PartialEq, Eq, Structural)]
pub struct CountTokensResponse {
    total_tokens: u64,
}

impl CountTokensResponse {
    /// How many tokens the count holds.
    pub closed spec fn total_tokens_spec(&self) -> u64 {
        self.total_tokens
    }

    /// Wraps a token count.
    pub fn new(total_tokens: u64) -> (r: Self)
        ensures
            r.total_tokens_spec() == total_tokens,
    {
        CountTokensResponse { total_tokens }
    }

    /// The token count.
    pub fn total_tokens(&self) -> (r: u64)
        ensures
            r == self.total_tokens_spec(),
    {
        self.total_tokens
    }
}

} // verus!
