//! The HTTP client's configuration, assembled before the pool starts.
//!
//! The engine decides every setting the client is built with - compression,
//! timeout, user agent, the basic-auth header and the redirect rule - and
//! hands them over as plain values; constructing the transport around them
//! is the runtime's part.  The redirect rule itself is a decision function
//! verified here: the transport asks it at every hop.

use base64::Engine;
use vstd::prelude::*;
use vstd::string::{StrSliceExecFns, StringExecFns};

verus! {

/// The largest byte count the auth-header encoder accepts; far beyond any
/// real credential, it keeps the encoder's size arithmetic inside `usize`.
pub const MAX_B64_INPUT_LEN: usize = 0x3FFF_FFFF;

/// The standard base64 encoding, with padding, of the given bytes.
pub uninterp spec fn base64_std_of(bytes: Seq<u8>) -> Seq<char>;

/// Relies on base64's `Engine::encode` with the `STANDARD` engine (the
/// standard alphabet, padded): the result is a pure function of the bytes,
/// four output characters for every three input bytes, rounded up.
#[verifier::external_body]
fn base64_standard(bytes: &Vec<u8>) -> (r: String)
    requires
        bytes@.len() <= MAX_B64_INPUT_LEN,
    ensures
        r@ == base64_std_of(bytes@),
        r@.len() == ((bytes@.len() + 2) / 3) * 4,
{
    base64::engine::general_purpose::STANDARD.encode(bytes.as_slice())
}

/// How the client follows a redirect hop: stay on the chain, answer with
/// the last same-host response, or fail the request outright.
#[derive(Clone, Copy, PartialEq, Eq, Structural, Debug)]
pub enum RedirectAction {
    /// Follow the hop.
    Follow,
    /// Do not follow; the response in hand is the answer.
    Stop,
    /// Fail the request: the chain is too long.
    TooMany,
}

/// The redirect rule the client is built with.
pub enum RedirectRule {
    /// The transport's stock policy, untouched.
    Standard,
    /// Follow only while the next hop's host matches the given target URL's
    /// host, and at most the given number of hops.
    KeepOnDomain(String, usize),
}

/// The containment rule applied at one redirect hop: a chain longer than
/// the cap fails the request; a hop to another host is not followed and the
/// last same-host response stands; anything else is followed.
pub fn redirect_decision(
    previous_hops: usize,
    attempt_host: &Option<String>,
    target_host: &Option<String>,
    max_redirects: usize,
) -> (r: RedirectAction)
    ensures
        previous_hops > max_redirects ==> r == RedirectAction::TooMany,
        previous_hops <= max_redirects && attempt_host.deep_view() != target_host.deep_view()
            ==> r == RedirectAction::Stop,
        previous_hops <= max_redirects && attempt_host.deep_view() == target_host.deep_view()
            ==> r == RedirectAction::Follow,
{
    if previous_hops > max_redirects {
        RedirectAction::TooMany
    } else {
        let same = match (attempt_host, target_host) {
            (Option::Some(a), Option::Some(b)) => *a == *b,
            (Option::None, Option::None) => true,
            _ => false,
        };
        if !same {
            RedirectAction::Stop
        } else {
            RedirectAction::Follow
        }
    }
}

/// The credentials placed before base64: `username`, a colon, and the
/// password when there is one.
pub open spec fn credentials_spec(username: Seq<char>, password: Option<Seq<char>>) -> Seq<char> {
    username + ":"@ + (match password {
        Option::Some(p) => p,
        Option::None => Seq::empty(),
    })
}

/// The basic-auth header value: `Basic ` and the standard base64 encoding
/// of the UTF-8 bytes of the credentials.
pub open spec fn auth_header_spec(username: Seq<char>, password: Option<Seq<char>>) -> Seq<char> {
    "Basic "@ + base64_std_of(vstd::utf8::encode_utf8(credentials_spec(username, password)))
}

/// The settings a client is built with, ready for the transport.
pub struct ClientSettings {
    /// Ask for gzip-compressed bodies.
    pub gzip: bool,
    /// The user agent sent with every request; empty when never set.
    pub user_agent: String,
    /// The request timeout in milliseconds, only when positive.
    pub timeout_ms: Option<i32>,
    /// The `Authorization` header value, when credentials were given.
    pub auth_header: Option<String>,
    /// The redirect rule.
    pub redirect: RedirectRule,
}

/// Collects the client settings one by one, then hands them over as one
/// bundle.
pub struct HttpClientBuilder {
    /// Ask for gzip-compressed bodies.
    pub gzip: bool,
    /// The user agent; empty until set.
    pub user_agent: String,
    /// The timeout in milliseconds, only when positive.
    pub timeout_ms: Option<i32>,
    /// The `Authorization` header value, once credentials were given.
    pub auth_header: Option<String>,
    /// The redirect rule; the stock policy until one is chosen.
    pub redirect: RedirectRule,
}

impl HttpClientBuilder {
    /// A builder with nothing chosen yet: no compression, no agent, no
    /// timeout, no credentials, the stock redirect policy.
    pub fn new() -> (b: Self)
        ensures
            !b.gzip,
            b.user_agent@ == Seq::<char>::empty(),
            b.timeout_ms is None,
            b.auth_header is None,
            b.redirect is Standard,
    {
        HttpClientBuilder {
            gzip: false,
            user_agent: String::new(),
            timeout_ms: None,
            auth_header: None,
            redirect: RedirectRule::Standard,
        }
    }

    /// Hands the collected settings over.  The timeout is kept only when
    /// positive, as the transport would apply it.
    pub fn build(self) -> (r: ClientSettings)
        ensures
            r.gzip == self.gzip,
            r.user_agent == self.user_agent,
            r.auth_header == self.auth_header,
            r.redirect == self.redirect,
            r.timeout_ms == (match self.timeout_ms {
                Option::Some(t) => if t > 0 {
                    Option::Some(t)
                } else {
                    Option::None
                },
                Option::None => Option::None::<i32>,
            }),
    {
        let timeout_ms = match self.timeout_ms {
            Option::Some(t) => if t > 0 {
                Option::Some(t)
            } else {
                Option::None
            },
            Option::None => None,
        };
        ClientSettings {
            gzip: self.gzip,
            user_agent: self.user_agent,
            timeout_ms,
            auth_header: self.auth_header,
            redirect: self.redirect,
        }
    }

    /// Sets the `Authorization` header from the credentials, unless they
    /// are too long for the encoder (a bound no real credential reaches; in
    /// that case nothing changes and the caller is told).
    pub fn basic_auth(&mut self, username: &str, password: Option<&str>) -> (r: Result<(), ()>)
        ensures
            final(self).gzip == old(self).gzip,
            final(self).user_agent == old(self).user_agent,
            final(self).timeout_ms == old(self).timeout_ms,
            final(self).redirect == old(self).redirect,
            r is Ok <==> vstd::utf8::encode_utf8(
                credentials_spec(
                    username@,
                    match password {
                        Option::Some(p) => Option::Some(p@),
                        Option::None => Option::None,
                    },
                ),
            ).len() <= MAX_B64_INPUT_LEN,
            r is Ok ==> (final(self).auth_header matches Some(h) && h@ == auth_header_spec(
                username@,
                match password {
                    Option::Some(p) => Option::Some(p@),
                    Option::None => Option::None,
                },
            )),
            r is Err ==> final(self).auth_header == old(self).auth_header,
    {
        match create_auth_header(username, password) {
            Option::Some(h) => {
                self.auth_header = Some(h);
                Ok(())
            },
            Option::None => Err(()),
        }
    }

    /// Chooses whether to ask for gzip-compressed bodies.
    pub fn gzip(&mut self, enabled: bool)
        ensures
            *final(self) == (HttpClientBuilder { gzip: enabled, ..*old(self) }),
    {
        self.gzip = enabled;
    }

    /// Sets the timeout: a positive value in milliseconds is kept, anything
    /// else means no timeout.
    pub fn timeout_ms(&mut self, t: i32)
        ensures
            *final(self) == (HttpClientBuilder {
                timeout_ms: if t > 0 {
                    Option::Some(t)
                } else {
                    Option::None
                },
                ..*old(self)
            }),
    {
        if t > 0 {
            self.timeout_ms = Some(t)
        } else {
            self.timeout_ms = None
        }
    }

    /// Sets the user agent.
    pub fn user_agent(&mut self, agent: &str)
        ensures
            final(self).user_agent@ == agent@,
            final(self).gzip == old(self).gzip,
            final(self).timeout_ms == old(self).timeout_ms,
            final(self).auth_header == old(self).auth_header,
            final(self).redirect == old(self).redirect,
    {
        self.user_agent = agent.to_owned();
    }

    /// Chooses the containment rule: follow redirects only on the host of
    /// the given target URL, and at most `max_redirects` hops.
    pub fn redirect_policy_keep_on_domain(&mut self, domain: &str, max_redirects: usize)
        ensures
            final(self).redirect matches RedirectRule::KeepOnDomain(d, m) && d@ == domain@ && m
                == max_redirects,
            final(self).gzip == old(self).gzip,
            final(self).user_agent == old(self).user_agent,
            final(self).timeout_ms == old(self).timeout_ms,
            final(self).auth_header == old(self).auth_header,
    {
        self.redirect = RedirectRule::KeepOnDomain(domain.to_owned(), max_redirects);
    }
}

/// The basic-auth header value for the given credentials: `Basic ` and the
/// base64 of `username:password`.  Nothing is handed back only when the
/// credentials outrun the encoder's bound, which no real credential does.
pub fn create_auth_header(username: &str, password: Option<&str>) -> (r: Option<String>)
    ensures
        ({
            let creds = credentials_spec(
                username@,
                match password {
                    Option::Some(p) => Option::Some(p@),
                    Option::None => Option::None,
                },
            );
            &&& vstd::utf8::encode_utf8(creds).len() <= MAX_B64_INPUT_LEN ==> (r matches Some(h)
                && h@ == auth_header_spec(
                username@,
                match password {
                    Option::Some(p) => Option::Some(p@),
                    Option::None => Option::None,
                },
            ))
            &&& vstd::utf8::encode_utf8(creds).len() > MAX_B64_INPUT_LEN ==> r is None
        }),
{
    let mut creds = username.to_owned();
    creds.append(":");
    if let Option::Some(p) = password {
        creds.append(p);
    }
    let ghost gcreds = credentials_spec(
        username@,
        match password {
            Option::Some(p) => Option::Some(p@),
            Option::None => Option::None,
        },
    );
    proof {
        assert(creds@ =~= gcreds);
    }
    let bytes = creds.as_str().as_bytes_vec();
    if bytes.len() > MAX_B64_INPUT_LEN {
        return None;
    }
    let b64 = base64_standard(&bytes);
    let mut h = String::from_str("Basic ");
    h.append(b64.as_str());
    Some(h)
}

} // verus!
