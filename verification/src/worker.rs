//! One worker's per-item processing: candidate fan-out and classification.
//!
//! A worker pulls a word, resolves it against the target, probes the word
//! itself and the word with each configured extension appended, in order,
//! and classifies every response: ignored status codes are suppressed
//! entirely, success is reported, and other responses are reported only on
//! request.  Issuing the HTTP requests is the transport's part; the whole
//! per-item behaviour is verified here as a function of the transport's
//! outcomes, one per candidate.

use crate::dispatch;
use crate::urls::{resolve_url, url_join_of};
use vstd::prelude::*;
use vstd::string::StringExecFns;

verus! {

/// The configuration bundle shared, read-only, by every worker of a scan.
/// The HTTP client and the shared channel consumer that accompany it at run
/// time belong to the runtime, not to the item logic.
#[derive(Clone)]
pub struct WorkerConfig {
    /// The base URL every candidate is resolved against.
    pub target: String,
    /// The extensions appended to each word, each with its leading dot.
    pub extentions: Vec<String>,
    /// Status codes whose responses never reach the log.
    pub ignore_codes: Vec<u16>,
    /// Log the full resolved URL rather than `/<suffix>`.
    pub expand_url_log: bool,
    /// Also log non-success responses.
    pub print_fails: bool,
}

/// A worker: an ordinal identity; everything else is shared configuration.
#[derive(Clone, Copy)]
pub struct HttpDirWorker {
    /// The worker's ordinal, for logging.
    pub id: usize,
}

impl dispatch::Worker for HttpDirWorker {
    type Config = WorkerConfig;

    open spec fn worker_id(&self) -> nat {
        self.id as nat
    }

    fn new(id: usize, cfg: &WorkerConfig) -> (w: Self) {
        HttpDirWorker { id }
    }
}

/// The level a response is reported at.
#[derive(Clone, Copy, PartialEq, Eq, Structural, Debug)]
pub enum LogLevel {
    /// A success response.
    Info,
    /// A non-success response, reported only when asked for.
    Warn,
}

/// One reported response.
pub struct LogLine {
    /// The level it is reported at.
    pub level: LogLevel,
    /// The full message, `OK <code> <target>` or `ERR <code> <target>`.
    pub message: String,
}

/// What one probe of a candidate URL came back with.
pub enum ProbeOutcome {
    /// A response: its status code and its final URL (after any redirects).
    Reply(u16, String),
    /// No response: the transport failed (timeout, connection, DNS).
    TransportFailed,
}

/// How processing one word ended.
#[derive(Clone, Copy, PartialEq, Eq, Structural, Debug)]
pub enum WordOutcome {
    /// Every candidate was probed.
    Completed,
    /// The word did not resolve against the target; nothing was probed.
    InvalidWord,
    /// A candidate did not resolve against the base URL; the word's
    /// remaining candidates were abandoned.
    InvalidSuffix,
    /// A probe failed at the transport; the word's remaining candidates
    /// were abandoned.
    RequestFailed,
}

/// The candidate suffixes of a word: the word itself, then the word with
/// each extension appended, in configuration order, nothing reordered or
/// deduplicated.
pub open spec fn suffixes_spec(word: Seq<char>, exts: Seq<Seq<char>>) -> Seq<Seq<char>> {
    seq![word] + exts.map_values(|e: Seq<char>| word + e)
}

/// Builds the candidate suffixes of a word: exactly one per extension, plus
/// the bare word first.
pub fn build_suffixes(word: &String, extentions: &Vec<String>) -> (r: Vec<String>)
    ensures
        r.deep_view() == suffixes_spec(word@, extentions.deep_view()),
        r@.len() == 1 + extentions@.len(),
        r@[0]@ == word@,
        forall|k: int|
            1 <= k <= extentions@.len() ==> (#[trigger] r@[k])@ == word@ + extentions@[k - 1]@,
{
    let mut r: Vec<String> = Vec::new();
    r.push(word.clone());
    let mut i: usize = 0;
    while i < extentions.len()
        invariant
            i <= extentions@.len(),
            r@.len() == 1 + i as nat,
            r@[0]@ == word@,
            forall|k: int| 1 <= k <= i ==> (#[trigger] r@[k])@ == word@ + extentions@[k - 1]@,
        decreases extentions@.len() - i,
    {
        let s = word.clone().concat(extentions[i].as_str());
        r.push(s);
        i = i + 1;
    }
    proof {
        let want = suffixes_spec(word@, extentions.deep_view());
        assert forall|j: int| 0 <= j < r@.len() implies r.deep_view()[j] == want[j] by {
            if j >= 1 {
                assert(extentions.deep_view()[j - 1] == extentions@[j - 1]@);
            }
        }
        assert(r.deep_view() =~= want);
    }
    r
}

/// Resolves a word against the configured target, giving the base URL its
/// candidates are probed under, or nothing when the word does not resolve.
pub fn resolve_base(cfg: &WorkerConfig, word: &String) -> (r: Option<String>)
    ensures
        r.deep_view() == url_join_of(cfg.target@, word@),
{
    resolve_url(cfg.target.as_str(), word.as_str())
}

/// Resolves one candidate suffix against a word's base URL, giving the URL
/// it is probed at, or nothing when the suffix does not resolve.
pub fn resolve_candidate(base: &String, suffix: &String) -> (r: Option<String>)
    ensures
        r.deep_view() == url_join_of(base@, suffix@),
{
    resolve_url(base.as_str(), suffix.as_str())
}

/// The decimal digit `d` as a character.
pub open spec fn digit_char(d: nat) -> char {
    if d == 0 {
        '0'
    } else if d == 1 {
        '1'
    } else if d == 2 {
        '2'
    } else if d == 3 {
        '3'
    } else if d == 4 {
        '4'
    } else if d == 5 {
        '5'
    } else if d == 6 {
        '6'
    } else if d == 7 {
        '7'
    } else if d == 8 {
        '8'
    } else {
        '9'
    }
}

/// The decimal notation of `n`, most significant digit first, no sign and
/// no leading zero.
pub open spec fn dec_of(n: nat) -> Seq<char>
    decreases n,
{
    if n < 10 {
        seq![digit_char(n)]
    } else {
        dec_of(n / 10).push(digit_char(n % 10))
    }
}

fn digit_str(d: u16) -> (r: String)
    requires
        d < 10,
    ensures
        r@ == seq![digit_char(d as nat)],
{
    proof {
        reveal_strlit("0");
        reveal_strlit("1");
        reveal_strlit("2");
        reveal_strlit("3");
        reveal_strlit("4");
        reveal_strlit("5");
        reveal_strlit("6");
        reveal_strlit("7");
        reveal_strlit("8");
        reveal_strlit("9");
    }
    let r = if d == 0 {
        String::from_str("0")
    } else if d == 1 {
        String::from_str("1")
    } else if d == 2 {
        String::from_str("2")
    } else if d == 3 {
        String::from_str("3")
    } else if d == 4 {
        String::from_str("4")
    } else if d == 5 {
        String::from_str("5")
    } else if d == 6 {
        String::from_str("6")
    } else if d == 7 {
        String::from_str("7")
    } else if d == 8 {
        String::from_str("8")
    } else {
        String::from_str("9")
    };
    proof {
        assert(r@ =~= seq![digit_char(d as nat)]);
    }
    r
}

/// Writes `n` in decimal.
pub fn u16_to_dec(n: u16) -> (r: String)
    ensures
        r@ == dec_of(n as nat),
    decreases n,
{
    if n < 10 {
        digit_str(n)
    } else {
        let mut r = u16_to_dec(n / 10);
        let d = digit_str(n % 10);
        r.append(d.as_str());
        proof {
            assert(dec_of(n as nat) =~= dec_of(n as nat / 10) + seq![digit_char(n as nat % 10)]);
        }
        r
    }
}

/// Whether `status` is among the configured codes to ignore.
pub fn contains_code(codes: &Vec<u16>, status: u16) -> (r: bool)
    ensures
        r == codes@.contains(status),
{
    let mut i: usize = 0;
    while i < codes.len()
        invariant
            i <= codes@.len(),
            forall|j: int| 0 <= j < i ==> codes@[j] != status,
        decreases codes@.len() - i,
    {
        if codes[i] == status {
            return true;
        }
        i = i + 1;
    }
    false
}

/// A status code of the conventional success class.
pub open spec fn is_success_code(status: u16) -> bool {
    200 <= status < 300
}

/// What a log line points at: the full resolved URL, or the candidate
/// suffix as an absolute path.
pub open spec fn log_target_spec(expand: bool, suffix: Seq<char>, resolved: Seq<char>) -> Seq<char> {
    if expand {
        resolved
    } else {
        "/"@ + suffix
    }
}

/// The message a response is reported with.
pub open spec fn log_message_spec(success: bool, status: u16, target: Seq<char>) -> Seq<char> {
    (if success {
        "OK "@
    } else {
        "ERR "@
    }) + dec_of(status as nat) + " "@ + target
}

/// How one response is classified: suppressed entirely when its status is
/// in the ignore set; reported as success when in the 2xx class; otherwise
/// reported as a failure only when failures were asked for.
pub open spec fn classify_spec(
    ignore: Seq<u16>,
    print_fails: bool,
    expand: bool,
    status: u16,
    suffix: Seq<char>,
    resolved: Seq<char>,
) -> Option<(LogLevel, Seq<char>)> {
    if ignore.contains(status) {
        None
    } else if is_success_code(status) {
        Some((LogLevel::Info, log_message_spec(true, status, log_target_spec(expand, suffix, resolved))))
    } else if print_fails {
        Some((LogLevel::Warn, log_message_spec(false, status, log_target_spec(expand, suffix, resolved))))
    } else {
        None
    }
}

/// The level and message of a possible log line.
pub open spec fn opt_log_view(r: Option<LogLine>) -> Option<(LogLevel, Seq<char>)> {
    match r {
        Option::None => Option::None,
        Option::Some(l) => Option::Some((l.level, l.message@)),
    }
}

/// Classifies one response, handing back the log line it deserves, if any.
/// A status in the ignore set is suppressed and never appears in any log
/// output.
pub fn classify_response(cfg: &WorkerConfig, status: u16, suffix: &String, resolved: &String) -> (r:
    Option<LogLine>)
    ensures
        opt_log_view(r) == classify_spec(
            cfg.ignore_codes@,
            cfg.print_fails,
            cfg.expand_url_log,
            status,
            suffix@,
            resolved@,
        ),
{
    if contains_code(&cfg.ignore_codes, status) {
        return None;
    }
    let success = 200 <= status && status < 300;
    if !success && !cfg.print_fails {
        return None;
    }
    let mut m = if success {
        String::from_str("OK ")
    } else {
        String::from_str("ERR ")
    };
    let dec = u16_to_dec(status);
    m.append(dec.as_str());
    m.append(" ");
    if cfg.expand_url_log {
        m.append(resolved.as_str());
    } else {
        m.append("/");
        m.append(suffix.as_str());
    }
    let level = if success {
        LogLevel::Info
    } else {
        LogLevel::Warn
    };
    proof {
        assert(m@ =~= log_message_spec(
            success,
            status,
            log_target_spec(cfg.expand_url_log, suffix@, resolved@),
        ));
    }
    Some(LogLine { level, message: m })
}

/// The level and message of each of a worker's log lines.
pub open spec fn log_views(logs: Seq<LogLine>) -> Seq<(LogLevel, Seq<char>)> {
    logs.map_values(|l: LogLine| (l.level, l.message@))
}

/// The log lines that processing candidates `k`, `k+1`, ... of one word
/// produces: candidates are probed in order, and the first resolution
/// failure or transport failure abandons the word's remaining candidates.
pub open spec fn word_logs_spec(
    ignore: Seq<u16>,
    print_fails: bool,
    expand: bool,
    base: Seq<char>,
    sufs: Seq<Seq<char>>,
    outs: Seq<ProbeOutcome>,
    k: int,
) -> Seq<(LogLevel, Seq<char>)>
    decreases sufs.len() - k,
{
    if k < 0 || k >= sufs.len() {
        Seq::empty()
    } else {
        match url_join_of(base, sufs[k]) {
            Option::None => Seq::empty(),
            Option::Some(u) => match outs[k] {
                ProbeOutcome::TransportFailed => Seq::empty(),
                ProbeOutcome::Reply(status, rurl) => {
                    let rest = word_logs_spec(ignore, print_fails, expand, base, sufs, outs, k + 1);
                    match classify_spec(ignore, print_fails, expand, status, sufs[k], rurl@) {
                        Option::None => rest,
                        Option::Some(entry) => seq![entry] + rest,
                    }
                },
            },
        }
    }
}

/// How processing candidates `k`, `k+1`, ... of one word ends.
pub open spec fn word_outcome_spec(
    base: Seq<char>,
    sufs: Seq<Seq<char>>,
    outs: Seq<ProbeOutcome>,
    k: int,
) -> WordOutcome
    decreases sufs.len() - k,
{
    if k < 0 || k >= sufs.len() {
        WordOutcome::Completed
    } else {
        match url_join_of(base, sufs[k]) {
            Option::None => WordOutcome::InvalidSuffix,
            Option::Some(u) => match outs[k] {
                ProbeOutcome::TransportFailed => WordOutcome::RequestFailed,
                ProbeOutcome::Reply(status, rurl) => word_outcome_spec(base, sufs, outs, k + 1),
            },
        }
    }
}

/// Processes one word, as a function of what the transport answered:
/// resolves the word against the target, probes each candidate suffix in
/// order (`outcomes` holds the transport's answer for each), and collects
/// the log lines the responses deserve.  A word that does not resolve is
/// abandoned before any probe; a candidate that does not resolve, or whose
/// probe fails at the transport, abandons the word's remaining candidates.
pub fn process_word(cfg: &WorkerConfig, word: &String, outcomes: &Vec<ProbeOutcome>) -> (r: (
    Vec<LogLine>,
    WordOutcome,
))
    requires
        outcomes@.len() >= 1 + cfg.extentions@.len(),
    ensures
        url_join_of(cfg.target@, word@) is None ==> {
            &&& r.0@.len() == 0
            &&& r.1 == WordOutcome::InvalidWord
        },
        url_join_of(cfg.target@, word@) matches Some(base) ==> {
            &&& log_views(r.0@) == word_logs_spec(
                cfg.ignore_codes@,
                cfg.print_fails,
                cfg.expand_url_log,
                base,
                suffixes_spec(word@, cfg.extentions.deep_view()),
                outcomes@,
                0,
            )
            &&& r.1 == word_outcome_spec(
                base,
                suffixes_spec(word@, cfg.extentions.deep_view()),
                outcomes@,
                0,
            )
        },
{
    let mut logs: Vec<LogLine> = Vec::new();
    let base = match resolve_url(cfg.target.as_str(), word.as_str()) {
        Option::None => {
            return (logs, WordOutcome::InvalidWord);
        },
        Option::Some(b) => b,
    };
    let sufs = build_suffixes(word, &cfg.extentions);
    let ghost gsufs = suffixes_spec(word@, cfg.extentions.deep_view());
    let ghost gignore = cfg.ignore_codes@;
    let ghost gpf = cfg.print_fails;
    let ghost gex = cfg.expand_url_log;
    let mut k: usize = 0;
    while k < sufs.len()
        invariant
            url_join_of(cfg.target@, word@) == Some(base@),
            gsufs == suffixes_spec(word@, cfg.extentions.deep_view()),
            sufs.deep_view() == gsufs,
            sufs@.len() == gsufs.len(),
            outcomes@.len() >= gsufs.len(),
            k <= sufs@.len(),
            gignore == cfg.ignore_codes@,
            gpf == cfg.print_fails,
            gex == cfg.expand_url_log,
            log_views(logs@) + word_logs_spec(gignore, gpf, gex, base@, gsufs, outcomes@, k as int)
                =~= word_logs_spec(gignore, gpf, gex, base@, gsufs, outcomes@, 0),
            word_outcome_spec(base@, gsufs, outcomes@, k as int) == word_outcome_spec(
                base@,
                gsufs,
                outcomes@,
                0,
            ),
        decreases sufs@.len() - k,
    {
        let ghost pre_logs = logs@;
        proof {
            assert(sufs@[k as int]@ == sufs.deep_view()[k as int]);
        }
        let resolved = resolve_url(base.as_str(), sufs[k].as_str());
        if resolved.is_none() {
            proof {
                assert(word_logs_spec(gignore, gpf, gex, base@, gsufs, outcomes@, k as int)
                    =~= Seq::empty());
                assert(log_views(logs@) + Seq::<(LogLevel, Seq<char>)>::empty()
                    =~= log_views(logs@));
            }
            return (logs, WordOutcome::InvalidSuffix);
        }
        match &outcomes[k] {
            ProbeOutcome::TransportFailed => {
                proof {
                    assert(word_logs_spec(gignore, gpf, gex, base@, gsufs, outcomes@, k as int)
                        =~= Seq::empty());
                    assert(log_views(logs@) + Seq::<(LogLevel, Seq<char>)>::empty()
                        =~= log_views(logs@));
                }
                return (logs, WordOutcome::RequestFailed);
            },
            ProbeOutcome::Reply(status, rurl) => {
                match classify_response(cfg, *status, &sufs[k], rurl) {
                    Option::Some(line) => {
                        logs.push(line);
                        proof {
                            assert(log_views(logs@) =~= log_views(pre_logs) + seq![
                                (line.level, line.message@),
                            ]);
                            assert(log_views(pre_logs) + (seq![(line.level, line.message@)]
                                + word_logs_spec(
                                gignore,
                                gpf,
                                gex,
                                base@,
                                gsufs,
                                outcomes@,
                                k + 1,
                            )) =~= (log_views(pre_logs) + seq![(line.level, line.message@)])
                                + word_logs_spec(gignore, gpf, gex, base@, gsufs, outcomes@, k + 1));
                        }
                    },
                    Option::None => {},
                }
            },
        }
        k = k + 1;
    }
    (logs, WordOutcome::Completed)
}

/// Ignore-set suppression: when every response's status code is in the
/// ignore set, a word produces no log line at all, whatever the word, the
/// candidates and the responses' URLs.
pub proof fn lemma_ignore_set_suppression(
    ignore: Seq<u16>,
    print_fails: bool,
    expand: bool,
    base: Seq<char>,
    sufs: Seq<Seq<char>>,
    outs: Seq<ProbeOutcome>,
    k: int,
)
    requires
        forall|j: int|
            0 <= j < outs.len() ==> {
                &&& (#[trigger] outs[j]) matches ProbeOutcome::Reply(status, rurl)
                &&& ignore.contains(status)
            },
        sufs.len() <= outs.len(),
    ensures
        word_logs_spec(ignore, print_fails, expand, base, sufs, outs, k) =~= Seq::empty(),
    decreases sufs.len() - k,
{
    if 0 <= k < sufs.len() {
        lemma_ignore_set_suppression(ignore, print_fails, expand, base, sufs, outs, k + 1);
    }
}

} // verus!
