//! Assembling one scan and driving its feeder.
//!
//! The scanner turns the raw configuration into what the workers share:
//! the normalized extension list, the parsed ignore codes and the client
//! settings.  The feeder loop's decisions - what to do with each line read,
//! and how to pace after each send - are functions here; reading lines,
//! sending with a timeout and sleeping between sends is the runtime's part.

use crate::http_client_builder::{ClientSettings, HttpClientBuilder, MAX_B64_INPUT_LEN};
use crate::http_client_builder::{auth_header_spec, credentials_spec};
use crate::utils::{ext_list_spec, get_extention_list, trim_spec, trim_str};
use crate::{CommonArgs, HttpDirConfig};
use vstd::prelude::*;
use vstd::string::StrSliceExecFns;

verus! {

/// How long the feeder waits for a worker to take a word before giving the
/// whole run up, in seconds.
pub const SEND_TIMEOUT_SECS: u64 = 20;

/// The redirect-chain cap the client is built with.
pub const MAX_REDIRECTS: usize = 5;

/// A decimal digit.
pub open spec fn is_dec_digit(c: char) -> bool {
    48 <= c as u32 <= 57
}

/// The value of a decimal digit.
pub open spec fn digit_val(c: char) -> nat {
    if is_dec_digit(c) {
        (c as u32 - 48) as nat
    } else {
        0
    }
}

/// The value of a digit string, most significant digit first.
pub open spec fn dec_val(s: Seq<char>) -> nat
    decreases s.len(),
{
    if s.len() == 0 {
        0
    } else {
        dec_val(s.drop_last()) * 10 + digit_val(s.last())
    }
}

/// The digits of a number notation: everything after an optional leading
/// plus sign.
pub open spec fn digits_of(s: Seq<char>) -> Seq<char> {
    if s.len() > 0 && s[0] == '+' {
        s.drop_first()
    } else {
        s
    }
}

/// Every character is a decimal digit.
pub open spec fn all_dec_digits(s: Seq<char>) -> bool {
    forall|i: int| 0 <= i < s.len() ==> is_dec_digit(#[trigger] s[i])
}

/// What `str::parse::<u16>` accepts: an optional plus sign, then one or
/// more decimal digits, valuing at most 65535; anything else is rejected.
pub open spec fn parse_u16_spec(s: Seq<char>) -> Option<u16> {
    let d = digits_of(s);
    if d.len() == 0 || !all_dec_digits(d) || dec_val(d) > 65535 {
        Option::None
    } else {
        Option::Some(dec_val(d) as u16)
    }
}

/// A longer digit string never values less than its prefix.
proof fn lemma_dec_val_prefix(s: Seq<char>, k: int)
    requires
        0 <= k <= s.len(),
    ensures
        dec_val(s.take(k)) <= dec_val(s),
    decreases s.len(),
{
    if k < s.len() {
        assert(s.drop_last().take(k) =~= s.take(k));
        lemma_dec_val_prefix(s.drop_last(), k);
    } else {
        assert(s.take(k) =~= s);
    }
}

/// Reads a status code as `str::parse::<u16>` would: an optional plus
/// sign, then decimal digits; rejected when empty, when any character is
/// not a digit, or when the value outruns a `u16`.
pub fn parse_u16(s: &str) -> (r: Option<u16>)
    ensures
        r == parse_u16_spec(s@),
{
    let len: usize = s.unicode_len();
    let mut start: usize = 0;
    if len > 0 && s.get_char(0) == '+' {
        start = 1;
    }
    let ghost d = digits_of(s@);
    proof {
        assert(d =~= s@.subrange(start as int, len as int));
    }
    if start == len {
        return None;
    }
    let mut acc: u32 = 0;
    let mut i: usize = start;
    while i < len
        invariant
            start <= i <= len,
            len == s@.len(),
            d == digits_of(s@),
            d =~= s@.subrange(start as int, len as int),
            forall|j: int| start <= j < i ==> is_dec_digit(#[trigger] s@[j]),
            acc <= 65535,
            acc == dec_val(s@.subrange(start as int, i as int)),
        decreases len - i,
    {
        let c = s.get_char(i);
        let u: u32 = c as u32;
        if u < 48 || u > 57 {
            proof {
                assert(d[i - start] == s@[i as int]);
                assert(!all_dec_digits(d));
            }
            return None;
        }
        let next: u32 = acc * 10 + (u - 48);
        proof {
            assert(s@.subrange(start as int, i + 1).drop_last() =~= s@.subrange(
                start as int,
                i as int,
            ));
            assert(s@.subrange(start as int, i + 1).last() == s@[i as int]);
            assert(dec_val(s@.subrange(start as int, i + 1)) == acc * 10 + digit_val(s@[i as int]));
        }
        if next > 65535 {
            proof {
                lemma_dec_val_prefix(d, i + 1 - start);
                assert(d.take(i + 1 - start) =~= s@.subrange(start as int, i + 1));
                assert(dec_val(d) > 65535);
            }
            return None;
        }
        acc = next;
        i = i + 1;
    }
    proof {
        assert(s@.subrange(start as int, len as int) =~= d);
    }
    Some(acc as u16)
}

/// The codes among the given notations that parse; the rest are passed
/// over, in order, exactly as collecting the successful parses leaves them.
pub open spec fn parse_codes_from(inputs: Seq<Seq<char>>, k: int) -> Seq<u16>
    decreases inputs.len() - k,
{
    if k < 0 || k >= inputs.len() {
        Seq::empty()
    } else {
        match parse_u16_spec(inputs[k]) {
            Option::Some(v) => seq![v] + parse_codes_from(inputs, k + 1),
            Option::None => parse_codes_from(inputs, k + 1),
        }
    }
}

/// The ignore set a scan runs with: each given notation parsed as a status
/// code, the unparsable ones dropped.
pub open spec fn ignore_codes_spec(input: Option<Seq<Seq<char>>>) -> Seq<u16> {
    match input {
        Option::Some(e) => parse_codes_from(e, 0),
        Option::None => Seq::empty(),
    }
}

/// Parses the configured ignore codes, dropping what does not parse.
pub fn parse_ignore_codes(input: &Option<Vec<String>>) -> (r: Vec<u16>)
    ensures
        r@ == ignore_codes_spec(input.deep_view()),
{
    let mut r: Vec<u16> = Vec::new();
    match input {
        Option::Some(codes) => {
            let ghost g = codes.deep_view();
            let mut i: usize = 0;
            while i < codes.len()
                invariant
                    i <= codes@.len(),
                    g == codes.deep_view(),
                    g.len() == codes@.len(),
                    r@ + parse_codes_from(g, i as int) =~= parse_codes_from(g, 0),
                decreases codes@.len() - i,
            {
                let ghost pre = r@;
                proof {
                    assert(codes@[i as int]@ == g[i as int]);
                }
                match parse_u16(codes[i].as_str()) {
                    Option::Some(v) => {
                        r.push(v);
                        proof {
                            assert(pre + (seq![v] + parse_codes_from(g, i + 1)) =~= (pre.push(v))
                                + parse_codes_from(g, i + 1));
                        }
                    },
                    Option::None => {},
                }
                i = i + 1;
            }
            proof {
                assert(r@ + Seq::<u16>::empty() =~= r@);
            }
        },
        Option::None => {},
    }
    r
}

/// The worker count a scan actually runs with: the configured count, held
/// to at least one worker and at most three hundred.
pub fn effective_threads(threads: u16) -> (r: usize)
    ensures
        r == if threads < 1 {
            1usize
        } else if threads > 300 {
            300usize
        } else {
            threads as usize
        },
        1 <= r <= 300,
{
    if threads < 1 {
        1
    } else if threads > 300 {
        300
    } else {
        threads as usize
    }
}

/// What the feeder learned from its try to read the next line.
pub enum FeederEvent {
    /// A line was read.
    Line(String),
    /// The input is exhausted.
    EndOfInput,
    /// The input failed; the whole run is aborted.
    ReadFailed,
}

/// What the feeder does next.
pub enum FeederAction {
    /// Send this word (the line, trimmed) to the workers.
    Send(String),
    /// Close the channel and join the workers.
    CloseAndJoin,
    /// Abort the run with the read error.
    AbortRun,
}

/// The feeder's decision for one read: a line becomes the trimmed word to
/// send; exhausted input closes the channel and joins the pool; a read
/// error aborts the run.
pub fn feeder_step(event: FeederEvent) -> (a: FeederAction)
    ensures
        event matches FeederEvent::Line(l) ==> (a matches FeederAction::Send(w) && w@ == trim_spec(
            l@,
        )),
        event is EndOfInput ==> a is CloseAndJoin,
        event is ReadFailed ==> a is AbortRun,
{
    match event {
        FeederEvent::Line(l) => {
            let w = trim_str(l.as_str()).to_owned();
            FeederAction::Send(w)
        },
        FeederEvent::EndOfInput => FeederAction::CloseAndJoin,
        FeederEvent::ReadFailed => FeederAction::AbortRun,
    }
}

/// How the feeder paces itself after one send.
pub enum PacingAction {
    /// Read the next line right away.
    Continue,
    /// Sleep this many milliseconds, then read the next line.
    Pause(u64),
    /// Stop feeding: no worker took the word within the timeout; close the
    /// channel and join the workers that are still draining.
    StopFeeding,
}

/// The feeder's decision after one send: a timeout ends the feeding early;
/// otherwise a configured positive delay paces the next read.
pub fn after_send_step(timed_out: bool, delay: i32) -> (a: PacingAction)
    ensures
        timed_out ==> a is StopFeeding,
        !timed_out && delay > 0 ==> a == PacingAction::Pause(delay as u64),
        !timed_out && delay <= 0 ==> a is Continue,
{
    if timed_out {
        PacingAction::StopFeeding
    } else if delay > 0 {
        PacingAction::Pause(delay as u64)
    } else {
        PacingAction::Continue
    }
}

/// The error of a scan whose credentials outrun the auth-header encoder's
/// bound; no real credential reaches it.
#[derive(Debug)]
pub struct AuthHeaderTooLong;

/// Whether the configured credentials outrun the auth-header encoder's
/// bound.
pub open spec fn credentials_too_long(cfg: HttpDirConfig) -> bool {
    match cfg.username {
        Option::Some(u) => vstd::utf8::encode_utf8(
            credentials_spec(
                u@,
                match cfg.password {
                    Option::Some(p) => Option::Some(p@),
                    Option::None => Option::None,
                },
            ),
        ).len() > MAX_B64_INPUT_LEN,
        Option::None => false,
    }
}

/// The client settings a configuration calls for.
pub open spec fn client_settings_spec(cfg: HttpDirConfig, r: ClientSettings) -> bool {
    &&& r.gzip == cfg.gzip
    &&& (r.redirect matches crate::http_client_builder::RedirectRule::KeepOnDomain(d, m) && d@
        == cfg.target@ && m == MAX_REDIRECTS)
    &&& r.timeout_ms == (if cfg.timeout > 0 {
        Option::Some(cfg.timeout)
    } else {
        Option::None::<i32>
    })
    &&& r.user_agent@ == (match cfg.user_agent {
        Option::Some(ua) => ua@,
        Option::None => Seq::<char>::empty(),
    })
    &&& r.auth_header.deep_view() == (match cfg.username {
        Option::Some(u) => Option::Some(
            auth_header_spec(
                u@,
                match cfg.password {
                    Option::Some(p) => Option::Some(p@),
                    Option::None => Option::None,
                },
            ),
        ),
        Option::None => Option::None::<Seq<char>>,
    })
}

/// Chooses every setting the HTTP client is built with: compression and
/// timeout as configured, the user agent when one is given, the basic-auth
/// header when a username is given, and redirects kept on the target's
/// host, capped.  Fails exactly when the credentials outrun the encoder's
/// bound.
pub fn make_http_client(cfg: &HttpDirConfig) -> (r: Result<ClientSettings, AuthHeaderTooLong>)
    ensures
        r is Ok <==> !credentials_too_long(*cfg),
        r matches Ok(settings) ==> client_settings_spec(*cfg, settings),
{
    let mut builder = HttpClientBuilder::new();

    builder.gzip(cfg.gzip);
    builder.redirect_policy_keep_on_domain(cfg.target.as_str(), MAX_REDIRECTS);
    builder.timeout_ms(cfg.timeout);

    if let Option::Some(user_agent) = &cfg.user_agent {
        builder.user_agent(user_agent.as_str());
    }

    if let Option::Some(username) = &cfg.username {
        let password = match &cfg.password {
            Option::Some(p) => Option::Some(p.as_str()),
            Option::None => Option::None,
        };
        if builder.basic_auth(username.as_str(), password).is_err() {
            return Err(AuthHeaderTooLong);
        }
    }

    Ok(builder.build())
}

/// One scan, assembled and ready to run: the raw configuration plus what
/// the workers share, derived from it.
pub struct HttpDirScanner {
    /// The options shared by every subcommand.
    pub common_args: CommonArgs,
    /// The scan's raw configuration.
    pub cfg: HttpDirConfig,
    /// The settings the HTTP client is built with.
    pub client_settings: ClientSettings,
    /// The extension list, normalized.
    pub extentions: Vec<String>,
    /// The ignore set, parsed.
    pub ignore_codes: Vec<u16>,
}

impl HttpDirScanner {
    /// Assembles a scan: normalizes the extension list, parses the ignore
    /// codes and chooses the client settings.  Fails exactly when the
    /// credentials outrun the auth-header encoder's bound.
    pub fn new(common_args: CommonArgs, cfg: HttpDirConfig) -> (r: Result<Self, AuthHeaderTooLong>)
        ensures
            r is Ok <==> !credentials_too_long(cfg),
            r matches Ok(s) ==> {
                &&& s.extentions.deep_view() == ext_list_spec(
                    cfg.extentions.deep_view(),
                    cfg.default_extentions,
                )
                &&& s.ignore_codes@ == ignore_codes_spec(cfg.ignore_codes.deep_view())
                &&& client_settings_spec(cfg, s.client_settings)
                &&& s.cfg == cfg
                &&& s.common_args == common_args
            },
    {
        let extentions = get_extention_list(&cfg.extentions, cfg.default_extentions);
        let ignore_codes = parse_ignore_codes(&cfg.ignore_codes);
        let client_settings = match make_http_client(&cfg) {
            Ok(s) => s,
            Err(e) => {
                return Err(e);
            },
        };
        Ok(
            HttpDirScanner {
                common_args,
                cfg,
                client_settings,
                extentions,
                ignore_codes,
            },
        )
    }
}

} // verus!
