//! Client configuration and the decisions around each request: what to
//! sign, which query to send, what a status means, when to re-anchor the
//! rate limiter.
use vstd::prelude::*;

use crate::auth::Auth;
use crate::encoding::{decimal, decimal_string};
use crate::models::{search_pairs, SearchParams};
use crate::pagination::{page_pairs, PaginationParams};
use crate::params::{field, joined};
use crate::url::pairs_view;

verus! {

/// Requests per minute allowed before the server reports a limit: with
/// credentials, and without.
pub const AUTHENTICATED_PER_MINUTE: u32 = 60;

pub const ANONYMOUS_PER_MINUTE: u32 = 25;

/// Errors that the library decides on.
#[derive(Clone, Debug)]
pub enum DiscogsError {
    /// The server answered with a non-success status.
    Api { status: u16, body: String },
    /// The server answered 429.
    RateLimited,
    /// The client was set up without what it needs.
    Configuration(String),
    /// The endpoint needs credentials and none are configured.
    AuthRequired,
}

/// Settings collected before a client is built.
#[derive(Clone, Debug)]
pub struct ClientBuilder {
    pub user_agent: Option<String>,
    pub auth: Option<Auth>,
    pub base_url: String,
}

/// A validated client configuration.
#[derive(Clone, Debug)]
pub struct ClientConfig {
    pub user_agent: String,
    pub auth: Option<Auth>,
    pub base_url: String,
    /// The initial rate limit, per minute.
    pub max_per_minute: u32,
}

/// Whether a builder lacks a usable User-Agent.
pub open spec fn lacks_user_agent(b: ClientBuilder) -> bool {
    b.user_agent is None || b.user_agent->0@.len() == 0
}

impl ClientBuilder {
    /// No User-Agent, no credentials, the public API's address.
    pub fn new() -> (r: Self)
        ensures
            r.user_agent is None,
            r.auth is None,
            r.base_url@ == "https://api.discogs.com"@,
    {
        ClientBuilder { user_agent: None, auth: None, base_url: String::from_str("https://api.discogs.com") }
    }

    /// Sends requests to `url` instead of the public API.
    pub fn base_url(self, url: &str) -> (r: Self)
        ensures
            r.base_url@ == url@,
            r.user_agent == self.user_agent,
            r.auth == self.auth,
    {
        ClientBuilder { base_url: String::from_str(url), ..self }
    }

    /// Sets the User-Agent, which the API requires.
    pub fn user_agent(self, ua: &str) -> (r: Self)
        ensures
            r.user_agent is Some && r.user_agent->0@ == ua@,
            r.auth == self.auth,
            r.base_url == self.base_url,
    {
        ClientBuilder { user_agent: Some(String::from_str(ua)), ..self }
    }

    /// Authenticates with a personal access token.
    pub fn personal_token(self, token: &str) -> (r: Self)
        ensures
            match r.auth {
                Some(Auth::PersonalToken(t)) => t@ == token@,
                _ => false,
            },
            r.user_agent == self.user_agent,
            r.base_url == self.base_url,
    {
        ClientBuilder { auth: Some(Auth::PersonalToken(String::from_str(token))), ..self }
    }

    /// Authenticates with OAuth 1.0a credentials.
    pub fn oauth(self, consumer_key: &str, consumer_secret: &str, token: &str, token_secret: &str) -> (r: Self)
        ensures
            match r.auth {
                Some(Auth::OAuth { consumer_key: ck, consumer_secret: cs, token: t, token_secret: ts }) => {
                    &&& ck@ == consumer_key@
                    &&& cs@ == consumer_secret@
                    &&& t@ == token@
                    &&& ts@ == token_secret@
                },
                _ => false,
            },
            r.user_agent == self.user_agent,
            r.base_url == self.base_url,
    {
        let auth = Auth::OAuth {
            consumer_key: String::from_str(consumer_key),
            consumer_secret: String::from_str(consumer_secret),
            token: String::from_str(token),
            token_secret: String::from_str(token_secret),
        };
        ClientBuilder { auth: Some(auth), ..self }
    }

    /// Checks the settings: a non-empty User-Agent is required. The initial
    /// rate limit depends on whether credentials are set.
    pub fn build(self) -> (r: Result<ClientConfig, DiscogsError>)
        ensures
            lacks_user_agent(self) <==> r matches Err(DiscogsError::Configuration(_)),
            r is Ok || r matches Err(DiscogsError::Configuration(_)),
            r matches Ok(c) ==> {
                &&& self.user_agent == Some(c.user_agent)
                &&& c.auth == self.auth
                &&& c.base_url == self.base_url
                &&& c.max_per_minute == if self.auth is Some {
                    AUTHENTICATED_PER_MINUTE
                } else {
                    ANONYMOUS_PER_MINUTE
                }
            },
    {
        let user_agent = match self.user_agent {
            Some(ua) => ua,
            None => {
                return Err(DiscogsError::Configuration(String::from_str("User-Agent is required by the Discogs API")));
            },
        };
        if user_agent.as_str().unicode_len() == 0 {
            return Err(DiscogsError::Configuration(String::from_str("User-Agent must not be empty")));
        }
        let max_per_minute = if self.auth.is_some() {
            AUTHENTICATED_PER_MINUTE
        } else {
            ANONYMOUS_PER_MINUTE
        };
        Ok(ClientConfig { user_agent, auth: self.auth, base_url: self.base_url, max_per_minute })
    }
}

/// What a response status means for the caller.
#[derive(Clone, Copy, Debug, PartialEq, Eq, Structural)]
pub enum StatusClass {
    /// 2xx: decode the body.
    Success,
    /// 429: report that the client is rate limited.
    RateLimited,
    /// Anything else: report the status with the body.
    Failed,
}

/// Classifies a response status.
pub fn classify_status(status: u16) -> (r: StatusClass)
    ensures
        status == 429 ==> r == StatusClass::RateLimited,
        200 <= status < 300 ==> r == StatusClass::Success,
        status != 429 && !(200 <= status < 300) ==> r == StatusClass::Failed,
{
    if status == 429 {
        StatusClass::RateLimited
    } else if 200 <= status && status < 300 {
        StatusClass::Success
    } else {
        StatusClass::Failed
    }
}

/// The value of a decimal digit.
pub open spec fn digit_value(c: char) -> nat {
    ((c as u32) - 48) as nat
}

pub open spec fn all_digits(s: Seq<char>) -> bool {
    forall|i: int| 0 <= i < s.len() ==> '0' <= #[trigger] s[i] && s[i] <= '9'
}

/// The number that a string of decimal digits writes.
pub open spec fn digits_value(s: Seq<char>) -> nat
    decreases s.len(),
{
    if s.len() == 0 {
        0
    } else {
        digits_value(s.drop_last()) * 10 + digit_value(s.last())
    }
}

/// The digits of a count: the text after an optional leading `+`.
pub open spec fn count_digits(s: Seq<char>) -> Seq<char> {
    if s.len() > 0 && s[0] == '+' {
        s.drop_first()
    } else {
        s
    }
}

/// An unsigned count as a header carries it: an optional `+`, then at least
/// one digit, with a value that fits in 32 bits.
pub open spec fn parsed_count(s: Seq<char>) -> Option<u32> {
    let d = count_digits(s);
    if d.len() > 0 && all_digits(d) && digits_value(d) <= u32::MAX {
        Some(digits_value(d) as u32)
    } else {
        None
    }
}

proof fn lemma_digits_value_grows(d: Seq<char>, k: int)
    requires
        0 <= k <= d.len(),
    ensures
        digits_value(d) >= digits_value(d.take(k)),
    decreases d.len() - k,
{
    if k < d.len() {
        lemma_digits_value_grows(d, k + 1);
        assert(d.take(k + 1).drop_last() =~= d.take(k));
        let v = digits_value(d.take(k));
        assert(v * 10 >= v) by (nonlinear_arith);
    } else {
        assert(d.take(k) =~= d);
    }
}

/// Reads a rate-limit header value as an unsigned 32-bit count.
pub fn parse_count(s: &str) -> (r: Option<u32>)
    ensures
        r == parsed_count(s@),
{
    let n = s.unicode_len();
    let mut start: usize = 0;
    if n > 0 && s.get_char(0) == '+' {
        start = 1;
    }
    let ghost d = count_digits(s@);
    assert(d =~= s@.skip(start as int));
    if start >= n {
        return None;
    }
    let mut acc: u64 = 0;
    let mut i: usize = start;
    assert(d.take(0) =~= seq![]);
    while i < n
        invariant
            n == s@.len(),
            start <= i <= n,
            d == s@.skip(start as int),
            d == count_digits(s@),
            acc == digits_value(d.take(i - start)),
            acc <= u32::MAX,
            all_digits(d.take(i - start)),
        decreases n - i,
    {
        let c = s.get_char(i);
        assert(d[i - start] == c);
        if !('0' <= c && c <= '9') {
            proof {
                if all_digits(d) {
                    assert('0' <= d[i - start] && d[i - start] <= '9');
                }
            }
            return None;
        }
        assert(d.take(i - start + 1).drop_last() =~= d.take(i - start));
        acc = acc * 10 + (c as u64 - 48);
        assert(all_digits(d.take(i - start + 1)));
        assert(d.take(i - start + 1).last() == c);
        assert(acc == digits_value(d.take(i - start + 1)));
        if acc > 0xFFFF_FFFF {
            proof {
                if all_digits(d) {
                    lemma_digits_value_grows(d, i - start + 1);
                }
                assert(d.len() > 0);
            }
            return None;
        }
        i += 1;
    }
    assert(d.take(n - start) =~= d);
    Some(acc as u32)
}

/// The URL that a request is signed for: the query written after `?`,
/// pairs joined by `&`, values as given.
pub open spec fn signed_url(url: Seq<char>, query: Seq<(Seq<char>, Seq<char>)>) -> Seq<char> {
    if query.len() == 0 {
        url
    } else {
        url + "?"@ + joined(query)
    }
}

/// `url` with the query appended, as it is signed.
pub fn signing_url(url: &str, query: &Vec<(&str, String)>) -> (r: String)
    ensures
        r@ == signed_url(url@, pairs_view(query@)),
{
    let ghost s = pairs_view(query@);
    let mut out = String::from_str(url);
    let mut i: usize = 0;
    if query.len() == 0 {
        return out;
    }
    out.append("?");
    let ghost head = out@;
    assert(s.take(0) =~= seq![]);
    while i < query.len()
        invariant
            i <= query@.len(),
            s == pairs_view(query@),
            head == url@ + "?"@,
            out@ == head + joined(s.take(i as int)),
        decreases query@.len() - i,
    {
        assert(s.take(i + 1).drop_last() =~= s.take(i as int));
        assert(s[i as int] == (query@[i as int].0@, query@[i as int].1@));
        let ghost before = out@;
        if i > 0 {
            out.append("&");
        }
        out.append(query[i].0);
        out.append("=");
        out.append(query[i].1.as_str());
        proof {
            let j = joined(s.take(i as int));
            if i == 0 {
                assert(j =~= seq![]);
                assert(out@ =~= head + field(s[0]));
            } else {
                assert(out@ =~= head + (j + "&"@ + field(s[i as int])));
            }
        }
        i += 1;
    }
    assert(s.take(query@.len() as int) =~= s);
    out
}

/// `/collection/id` followed by `rest`.
pub fn resource_path(collection: &str, id: u64, rest: &str) -> (r: String)
    ensures
        r@ == "/"@ + collection@ + "/"@ + decimal(id as nat) + rest@,
{
    let mut p = String::from_str("/");
    p.append(collection);
    p.append("/");
    p.append(decimal_string(id).as_str());
    p.append(rest);
    p
}

impl ClientConfig {
    /// The query of a search request: the page, then the search fields. A
    /// search needs credentials.
    pub fn search_query(&self, params: &SearchParams, pagination: &PaginationParams) -> (r: Result<
        Vec<(&'static str, String)>,
        DiscogsError,
    >)
        ensures
            self.auth is None <==> r matches Err(DiscogsError::AuthRequired),
            r is Ok || r matches Err(DiscogsError::AuthRequired),
            r matches Ok(q) ==> pairs_view(q@) == page_pairs(pagination.page, pagination.per_page)
                + search_pairs(*params),
    {
        if self.auth.is_none() {
            return Err(DiscogsError::AuthRequired);
        }
        let mut q = pagination.as_query_pairs();
        let mut extra = params.as_query_pairs();
        let ghost a = q@;
        let ghost b = extra@;
        q.append(&mut extra);
        assert(pairs_view(q@) =~= pairs_view(a) + pairs_view(b));
        Ok(q)
    }
}

} // verus!
