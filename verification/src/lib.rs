//! A work-distribution engine for HTTP directory probing.
//!
//! A word list is streamed into a bounded channel; a fixed pool of workers
//! pulls words, builds candidate URLs (the word plus optional extensions),
//! and classifies the responses.  The producer-consumer protocol (bounded
//! channel, worker pool, feeder loop, first-error join) is modelled and
//! verified here; the asynchronous runtime, the HTTP transport and all I/O
//! live outside the library and drive these verified cores.

pub mod channel;
pub mod dispatch;
pub mod http_client_builder;
pub mod pool;
pub mod scanner;
pub mod urls;
pub mod utils;
pub mod worker;

use vstd::prelude::*;

verus! {

/// Options shared by every subcommand: where the word list comes from,
/// how many workers run, the pacing delay, and output switches.
#[derive(Clone)]
pub struct CommonArgs {
    /// Save output to the given file.
    pub out_file: Option<String>,
    /// Input word list used to fuzz (a path, `-` for standard input,
    /// or nothing for the built-in default list).
    pub word_list: Option<String>,
    /// Number of workers to use.
    pub threads: u16,
    /// Minimum delay in milliseconds between words.
    pub delay: i32,
    /// Disable console output.
    pub silent: bool,
    /// Verbosity level (occurrences of the verbose flag).
    pub verbose: i32,
    /// The selected operation.
    pub subcmd: Subcommand,
}

/// The operations the engine can run.
#[derive(Clone)]
pub enum Subcommand {
    /// Probe a web server's paths with a word list.
    HttpDir(HttpDirConfig),
}

/// Configuration of one HTTP directory scan.
#[derive(Clone)]
pub struct HttpDirConfig {
    /// The base URL that every candidate path is resolved against.
    pub target: String,
    /// Ask the server for gzip-compressed bodies.
    pub gzip: bool,
    /// HTTP timeout in milliseconds; zero or negative means none.
    pub timeout: i32,
    /// Basic-auth username.
    pub username: Option<String>,
    /// Basic-auth password.
    pub password: Option<String>,
    /// Request user agent.
    pub user_agent: Option<String>,
    /// Log the full resolved URL rather than `/<suffix>`.
    pub expand_url_log: bool,
    /// File extensions to append to each word.
    pub extentions: Option<Vec<String>>,
    /// Also use the built-in extension list (adds to the explicit ones).
    pub default_extentions: bool,
    /// Status codes whose responses are suppressed from all output.
    pub ignore_codes: Option<Vec<String>>,
    /// Also log non-success responses.
    pub print_fails: bool,
}

} // verus!
