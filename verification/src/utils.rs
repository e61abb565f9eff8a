//! Small helpers shared by both provider clients: query-string URL
//! building, decimal formatting, HTTP status classification, and the
//! base64 wrappers used for inline blob data.

use vstd::prelude::*;
use vstd::string::StringExecFns;

use crate::error::{AiError, AiResult};

verus! {

// ---------------------------------------------------------------------------
// Decimal formatting
// ---------------------------------------------------------------------------

/// The decimal digit character of `d`.
pub open spec fn digit_seq(d: int) -> Seq<char> {
    if d == 0 {
        "0"@
    } else if d == 1 {
        "1"@
    } else if d == 2 {
        "2"@
    } else if d == 3 {
        "3"@
    } else if d == 4 {
        "4"@
    } else if d == 5 {
        "5"@
    } else if d == 6 {
        "6"@
    } else if d == 7 {
        "7"@
    } else if d == 8 {
        "8"@
    } else {
        "9"@
    }
}

/// The decimal representation of a non-negative integer, without
/// leading zeros.
pub open spec fn dec_rep(n: int) -> Seq<char>
    recommends
        n >= 0,
    decreases n,
{
    if n < 10 {
        digit_seq(n)
    } else {
        dec_rep(n / 10) + digit_seq(n % 10)
    }
}

/// The decimal representation of a signed integer.
pub open spec fn dec_rep_signed(n: int) -> Seq<char> {
    if n >= 0 {
        dec_rep(n)
    } else {
        "-"@ + dec_rep(-n)
    }
}

/// The decimal digit character of `d`, as a string slice.
fn digit_str(d: u64) -> (r: &'static str)
    requires
        d < 10,
    ensures
        r@ == digit_seq(d as int),
{
    match d {
        0 => "0",
        1 => "1",
        2 => "2",
        3 => "3",
        4 => "4",
        5 => "5",
        6 => "6",
        7 => "7",
        8 => "8",
        _ => "9",
    }
}

/// Formats `n` in decimal.
pub fn u64_to_dec(n: u64) -> (r: String)
    ensures
        r@ == dec_rep(n as int),
    decreases n,
{
    if n < 10 {
        digit_str(n).to_owned()
    } else {
        let mut s = u64_to_dec(n / 10);
        s.append(digit_str(n % 10));
        s
    }
}

/// Formats `n` in decimal, with a sign when negative.
pub fn i32_to_dec(n: i32) -> (r: String)
    ensures
        r@ == dec_rep_signed(n as int),
{
    let v: i64 = n as i64;
    if v >= 0 {
        proof {
            assert(v as int == n as int);
        }
        u64_to_dec(v as u64)
    } else {
        let m: u64 = (-v) as u64;
        proof {
            assert(m as int == -(n as int));
        }
        let mut s = "-".to_owned();
        let digits = u64_to_dec(m);
        s.append(digits.as_str());
        s
    }
}

/// Whether two string slices hold the same characters.
pub(crate) fn str_eq(a: &str, b: &str) -> (r: bool)
    ensures
        r == (a@ == b@),
{
    let x = a.to_owned();
    let y = b.to_owned();
    x == y
}

// ---------------------------------------------------------------------------
// HTTP status classification
// ---------------------------------------------------------------------------

/// Whether an HTTP status code counts as success.
pub open spec fn is_success_status(status: u16) -> bool {
    200 <= status < 300
}

/// Sorts a response into the body of a successful answer or an
/// `ApiError` carrying the status code and the body.
pub fn check_status(status: u16, body: String) -> (r: AiResult<String>)
    ensures
        is_success_status(status) ==> (r matches Ok(b) && b@ == body@),
        !is_success_status(status) ==> (r matches Err(e) && e matches AiError::ApiError(s, b) && s
            == status && b@ == body@),
{
    if 200 <= status && status < 300 {
        Ok(body)
    } else {
        Err(AiError::ApiError(status, body))
    }
}

// ---------------------------------------------------------------------------
// Client configuration
// ---------------------------------------------------------------------------

/// What a validated client builder resolves to: the API key to send and
/// the optional request timeout in seconds. The I/O shell turns this
/// into an actual HTTP client. It holds the API key, so it
/// deliberately has no `Debug` form.
#[derive(Clone)]
pub struct ClientConfig {
    pub api_key: String,
    pub timeout: Option<u64>,
}

// ---------------------------------------------------------------------------
// Base64
// ---------------------------------------------------------------------------

/// What the standard padded base64 alphabet encodes the given bytes as.
/// The result depends on the bytes alone.
pub uninterp spec fn base64_of(bytes: Seq<u8>) -> Seq<char>;

/// What the standard padded base64 alphabet decodes the given text to:
/// `None` when the text is not valid base64. The result depends on the
/// text alone.
pub uninterp spec fn base64_decode_of(s: Seq<char>) -> Option<Seq<u8>>;

/// Relies on `base64::engine::general_purpose::STANDARD` via
/// `base64::Engine::encode`: standard-alphabet, padded encoding, whose
/// output decodes back to the input. The length bound keeps the
/// engine's output-size computation from overflowing.
#[verifier::external_body]
pub(crate) fn base64_encode(bytes: &Vec<u8>) -> (r: String)
    requires
        bytes@.len() < 0x1000_0000_0000_0000,
    ensures
        r@ == base64_of(bytes@),
        base64_decode_of(r@) == Some(bytes@),
{
    base64::Engine::encode(&base64::engine::general_purpose::STANDARD, bytes)
}

/// Relies on `base64::engine::general_purpose::STANDARD` via
/// `base64::Engine::decode`: it succeeds exactly on valid padded
/// standard-alphabet base64 text, and its error description is turned
/// into a plain string.
#[verifier::external_body]
pub(crate) fn base64_decode(s: &str) -> (r: Result<Vec<u8>, String>)
    ensures
        r is Ok <==> base64_decode_of(s@) is Some,
        r matches Ok(v) ==> base64_decode_of(s@) == Some(v@),
{
    match base64::Engine::decode(&base64::engine::general_purpose::STANDARD, s) {
        Ok(v) => Ok(v),
        Err(e) => Err(e.to_string()),
    }
}

// ---------------------------------------------------------------------------
// URL building
// ---------------------------------------------------------------------------

/// A base URL plus `key=value` query entries, assembled on demand.
#[derive(Debug, Clone)]
pub struct Url {
    url: String,
    query: Vec<String>,
}

/// The query entries joined with `&`.
pub open spec fn join_amp(qs: Seq<Seq<char>>) -> Seq<char>
    decreases qs.len(),
{
    if qs.len() == 0 {
        Seq::empty()
    } else if qs.len() == 1 {
        qs[0]
    } else {
        qs[0] + "&"@ + join_amp(qs.drop_first())
    }
}

/// What `Url::build` produces: the base URL alone, or the base URL, a
/// `?`, and the query entries joined with `&`.
pub open spec fn build_spec(url: Seq<char>, qs: Seq<Seq<char>>) -> Seq<char> {
    if qs.len() == 0 {
        url
    } else {
        url + "?"@ + join_amp(qs)
    }
}

/// Appending one more entry extends the joined query at its end.
proof fn lemma_join_amp_push(qs: Seq<Seq<char>>, q: Seq<char>)
    ensures
        join_amp(qs.push(q)) == if qs.len() == 0 {
            q
        } else {
            join_amp(qs) + "&"@ + q
        },
    decreases qs.len(),
{
    let p = qs.push(q);
    if qs.len() == 0 {
        assert(p.len() == 1);
        assert(p[0] == q);
    } else {
        assert(p[0] == qs[0]);
        assert(p.drop_first() =~= qs.drop_first().push(q));
        lemma_join_amp_push(qs.drop_first(), q);
        if qs.len() == 1 {
            assert(join_amp(p) == p[0] + "&"@ + join_amp(p.drop_first()));
            assert(join_amp(p.drop_first()) == q);
        } else {
            assert(join_amp(qs) + "&"@ + q =~= qs[0] + "&"@ + (join_amp(qs.drop_first()) + "&"@
                + q));
        }
    }
}

/// A type that can contribute query entries to a [`Url`].
pub trait IntoQuery: Sized {
    /// The key/value pairs this value stands for.
    spec fn query_model(self) -> Seq<(Seq<char>, Seq<char>)>;

    /// The key/value pairs, as owned strings.
    fn into_query(self) -> (r: Vec<(String, String)>)
        ensures
            r@.map_values(|p: (String, String)| (p.0@, p.1@)) == self.query_model(),
    ;
}

impl Url {
    /// The base URL.
    pub closed spec fn base_spec(&self) -> Seq<char> {
        self.url@
    }

    /// The query entries collected so far, each already in `key=value`
    /// form.
    pub closed spec fn query_spec(&self) -> Seq<Seq<char>> {
        self.query@.map_values(|q: String| q@)
    }

    /// A URL with no query entries.
    pub fn new(url: &str) -> (r: Self)
        ensures
            r.base_spec() == url@,
            r.query_spec() == Seq::<Seq<char>>::empty(),
    {
        let r = Url { url: url.to_owned(), query: Vec::new() };
        proof {
            assert(r.query_spec() =~= Seq::<Seq<char>>::empty());
        }
        r
    }

    /// Appends one `key=value` entry.
    pub fn add_query(&mut self, key: &str, value: &str)
        ensures
            final(self).base_spec() == old(self).base_spec(),
            final(self).query_spec() == old(self).query_spec().push(key@ + "="@ + value@),
    {
        let mut entry = key.to_owned();
        entry.append("=");
        entry.append(value);
        self.query.push(entry);
        proof {
            assert(self.query_spec() =~= old(self).query_spec().push(key@ + "="@ + value@));
        }
    }

    /// Appends one `key=value` entry, by value.
    pub fn with_query(self, key: &str, value: &str) -> (r: Self)
        ensures
            r.base_spec() == self.base_spec(),
            r.query_spec() == self.query_spec().push(key@ + "="@ + value@),
    {
        let mut u = self;
        u.add_query(key, value);
        u
    }

    /// Appends every entry of `query`.
    pub fn add_query_from<T: IntoQuery>(&mut self, query: T)
        ensures
            final(self).base_spec() == old(self).base_spec(),
            final(self).query_spec() == old(self).query_spec() + query.query_model().map_values(
                |p: (Seq<char>, Seq<char>)| p.0 + "="@ + p.1,
            ),
    {
        let ghost model = query.query_model();
        let pairs = query.into_query();
        let n = pairs.len();
        let mut i: usize = 0;
        proof {
            assert(self.query_spec() =~= old(self).query_spec() + model.take(0).map_values(
                |p: (Seq<char>, Seq<char>)| p.0 + "="@ + p.1,
            ));
        }
        while i < n
            invariant
                i <= n,
                n == pairs@.len(),
                pairs@.map_values(|p: (String, String)| (p.0@, p.1@)) == model,
                self.base_spec() == old(self).base_spec(),
                self.query_spec() == old(self).query_spec() + model.take(i as int).map_values(
                    |p: (Seq<char>, Seq<char>)| p.0 + "="@ + p.1,
                ),
            decreases n - i,
        {
            let key = pairs[i].0.clone();
            let value = pairs[i].1.clone();
            proof {
                assert(model[i as int] == (pairs@[i as int].0@, pairs@[i as int].1@));
            }
            self.add_query(key.as_str(), value.as_str());
            proof {
                assert(self.query_spec() =~= old(self).query_spec() + model.take(
                    i as int + 1,
                ).map_values(|p: (Seq<char>, Seq<char>)| p.0 + "="@ + p.1));
            }
            i += 1;
        }
        proof {
            assert(model.take(n as int) =~= model);
        }
    }

    /// Appends every entry of `query`, by value.
    pub fn with_query_from<T: IntoQuery>(self, query: T) -> (r: Self)
        ensures
            r.base_spec() == self.base_spec(),
            r.query_spec() == self.query_spec() + query.query_model().map_values(
                |p: (Seq<char>, Seq<char>)| p.0 + "="@ + p.1,
            ),
    {
        let mut u = self;
        u.add_query_from(query);
        u
    }

    /// Renders the URL: the base alone, or the base, `?`, and the
    /// entries joined with `&`.
    pub fn build(self) -> (r: String)
        ensures
            r@ == build_spec(self.base_spec(), self.query_spec()),
    {
        let ghost qs = self.query_spec();
        let Url { url: mut s, query } = self;
        if query.len() == 0 {
            return s;
        }
        s.append("?");
        let n = query.len();
        let mut i: usize = 0;
        while i < n
            invariant
                0 < n,
                i <= n,
                n == query@.len(),
                qs == query@.map_values(|q: String| q@),
                s@ == self.base_spec() + "?"@ + join_amp(qs.take(i as int)),
            decreases n - i,
        {
            if i > 0 {
                s.append("&");
            }
            s.append(query[i].as_str());
            proof {
                assert(qs.take(i as int).push(qs[i as int]) =~= qs.take(i as int + 1));
                lemma_join_amp_push(qs.take(i as int), qs[i as int]);
                assert(qs[i as int] == query@[i as int]@);
                if i == 0 {
                    assert(join_amp(qs.take(0int)).len() == 0);
                    assert(self.base_spec() + "?"@ + join_amp(qs.take(0int)) =~= self.base_spec()
                        + "?"@);
                    assert(s@ =~= self.base_spec() + "?"@ + join_amp(qs.take(1int)));
                } else {
                    assert(s@ =~= self.base_spec() + "?"@ + join_amp(qs.take(i as int + 1)));
                }
            }
            i += 1;
        }
        proof {
            assert(qs.take(n as int) =~= qs);
        }
        s
    }
}

} // verus!
