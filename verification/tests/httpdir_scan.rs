//! The HTTP directory scan: fan-out, classification, configuration.

use httpdir::http_client_builder::{
    create_auth_header, redirect_decision, HttpClientBuilder, RedirectAction, RedirectRule,
};
use httpdir::scanner::{
    after_send_step, effective_threads, feeder_step, make_http_client, parse_ignore_codes,
    parse_u16, FeederAction, FeederEvent, HttpDirScanner, PacingAction,
};
use httpdir::utils::{get_extention_list, normalize_extention, trim_str};
use httpdir::worker::{
    build_suffixes, classify_response, contains_code, process_word, resolve_base,
    resolve_candidate, u16_to_dec, LogLevel, ProbeOutcome, WordOutcome, WorkerConfig,
};
use httpdir::{CommonArgs, HttpDirConfig, Subcommand};

fn scan_config(target: &str) -> HttpDirConfig {
    HttpDirConfig {
        target: String::from(target),
        gzip: false,
        timeout: 0,
        username: None,
        password: None,
        user_agent: None,
        expand_url_log: false,
        extentions: None,
        default_extentions: false,
        ignore_codes: None,
        print_fails: false,
    }
}

fn worker_config() -> WorkerConfig {
    WorkerConfig {
        target: String::from("http://target.example/"),
        extentions: vec![String::from(".php"), String::from(".bak")],
        ignore_codes: vec![404],
        expand_url_log: false,
        print_fails: false,
    }
}

#[test]
fn extension_fan_out() {
    // One probe for the bare word, one per extension, in order, no
    // deduplication and no dot supplied here.
    let word = String::from("admin");
    let exts = vec![String::from(".php"), String::from(".bak")];
    let sufs = build_suffixes(&word, &exts);
    let got: Vec<&str> = sufs.iter().map(|s| s.as_str()).collect();
    assert_eq!(got, vec!["admin", "admin.php", "admin.bak"]);
}

#[test]
fn candidate_urls_are_resolved_against_the_target() {
    let cfg = worker_config();
    let word = String::from("admin");
    let base = resolve_base(&cfg, &word).expect("the word must resolve");
    assert_eq!(base.as_str(), "http://target.example/admin");
    let url = resolve_candidate(&base, &String::from("admin.php")).expect("must resolve");
    assert_eq!(url.as_str(), "http://target.example/admin.php");
    let url = resolve_candidate(&base, &String::from("admin.bak")).expect("must resolve");
    assert_eq!(url.as_str(), "http://target.example/admin.bak");
}

#[test]
fn invalid_target_resolves_to_nothing() {
    let mut cfg = worker_config();
    cfg.target = String::from("no scheme at all");
    assert!(resolve_base(&cfg, &String::from("admin")).is_none());
}

#[test]
fn ignore_set_suppresses_every_line() {
    // Ignore {404}, a transport answering 404 everywhere: zero log lines.
    let cfg = worker_config();
    let outcomes = vec![
        ProbeOutcome::Reply(404, String::from("http://target.example/admin")),
        ProbeOutcome::Reply(404, String::from("http://target.example/admin.php")),
        ProbeOutcome::Reply(404, String::from("http://target.example/admin.bak")),
    ];
    let (logs, outcome) = process_word(&cfg, &String::from("admin"), &outcomes);
    assert!(logs.is_empty());
    assert_eq!(outcome, WordOutcome::Completed);
}

#[test]
fn success_is_reported_with_the_suffix_path() {
    let cfg = worker_config();
    let outcomes = vec![
        ProbeOutcome::Reply(404, String::from("u")),
        ProbeOutcome::Reply(200, String::from("u")),
        ProbeOutcome::Reply(404, String::from("u")),
    ];
    let (logs, outcome) = process_word(&cfg, &String::from("admin"), &outcomes);
    assert_eq!(logs.len(), 1);
    assert_eq!(logs[0].level, LogLevel::Info);
    assert_eq!(logs[0].message.as_str(), "OK 200 /admin.php");
    assert_eq!(outcome, WordOutcome::Completed);
}

#[test]
fn failures_are_reported_only_on_request() {
    let mut cfg = worker_config();
    cfg.extentions = Vec::new();
    let outcomes = vec![ProbeOutcome::Reply(500, String::from("u"))];
    let (logs, _) = process_word(&cfg, &String::from("admin"), &outcomes);
    assert!(logs.is_empty());

    cfg.print_fails = true;
    let (logs, _) = process_word(&cfg, &String::from("admin"), &outcomes);
    assert_eq!(logs.len(), 1);
    assert_eq!(logs[0].level, LogLevel::Warn);
    assert_eq!(logs[0].message.as_str(), "ERR 500 /admin");
}

#[test]
fn expanded_logs_carry_the_responses_url() {
    let mut cfg = worker_config();
    cfg.extentions = Vec::new();
    cfg.expand_url_log = true;
    let outcomes = vec![ProbeOutcome::Reply(
        204,
        String::from("http://target.example/admin/"),
    )];
    let (logs, _) = process_word(&cfg, &String::from("admin"), &outcomes);
    assert_eq!(logs.len(), 1);
    assert_eq!(logs[0].message.as_str(), "OK 204 http://target.example/admin/");
}

#[test]
fn transport_failure_abandons_the_words_remaining_candidates() {
    let cfg = worker_config();
    let outcomes = vec![
        ProbeOutcome::Reply(200, String::from("u")),
        ProbeOutcome::TransportFailed,
        ProbeOutcome::Reply(200, String::from("u")),
    ];
    let (logs, outcome) = process_word(&cfg, &String::from("admin"), &outcomes);
    assert_eq!(logs.len(), 1);
    assert_eq!(logs[0].message.as_str(), "OK 200 /admin");
    assert_eq!(outcome, WordOutcome::RequestFailed);
}

#[test]
fn unresolvable_word_is_abandoned_before_any_probe() {
    let mut cfg = worker_config();
    cfg.target = String::from("not a url");
    let outcomes = vec![
        ProbeOutcome::Reply(200, String::from("u")),
        ProbeOutcome::Reply(200, String::from("u")),
        ProbeOutcome::Reply(200, String::from("u")),
    ];
    let (logs, outcome) = process_word(&cfg, &String::from("admin"), &outcomes);
    assert!(logs.is_empty());
    assert_eq!(outcome, WordOutcome::InvalidWord);
}

#[test]
fn decimal_notation_is_exact() {
    assert_eq!(u16_to_dec(0).as_str(), "0");
    assert_eq!(u16_to_dec(7).as_str(), "7");
    assert_eq!(u16_to_dec(404).as_str(), "404");
    assert_eq!(u16_to_dec(65535).as_str(), "65535");
}

#[test]
fn ignore_set_membership() {
    let codes = vec![301, 404];
    assert!(contains_code(&codes, 404));
    assert!(!contains_code(&codes, 200));
}

#[test]
fn classification_suppresses_ignored_codes() {
    let cfg = worker_config();
    let r = classify_response(&cfg, 404, &String::from("admin"), &String::from("u"));
    assert!(r.is_none());
}

#[test]
fn redirect_chain_longer_than_the_cap_fails() {
    // Six hops already made against a cap of five: the request fails.
    let host = Some(String::from("target.example"));
    assert_eq!(redirect_decision(6, &host, &host, 5), RedirectAction::TooMany);
    assert_eq!(redirect_decision(5, &host, &host, 5), RedirectAction::Follow);
}

#[test]
fn redirect_off_the_target_host_is_not_followed() {
    let target = Some(String::from("target.example"));
    let elsewhere = Some(String::from("evil.example"));
    assert_eq!(redirect_decision(1, &elsewhere, &target, 5), RedirectAction::Stop);
    assert_eq!(redirect_decision(1, &None, &target, 5), RedirectAction::Stop);
    assert_eq!(redirect_decision(1, &target, &target, 5), RedirectAction::Follow);
}

#[test]
fn auth_header_is_basic_base64() {
    let h = create_auth_header("user", Some("pass")).expect("within bounds");
    assert_eq!(h.as_str(), "Basic dXNlcjpwYXNz");
    let h = create_auth_header("user", None).expect("within bounds");
    assert_eq!(h.as_str(), "Basic dXNlcjo=");
}

#[test]
fn builder_collects_the_settings() {
    let mut b = HttpClientBuilder::new();
    b.gzip(true);
    b.timeout_ms(250);
    b.user_agent("probe/1.0");
    b.redirect_policy_keep_on_domain("http://target.example/", 5);
    assert!(b.basic_auth("user", Some("pass")).is_ok());
    let s = b.build();
    assert!(s.gzip);
    assert_eq!(s.timeout_ms, Some(250));
    assert_eq!(s.user_agent.as_str(), "probe/1.0");
    assert_eq!(s.auth_header, Some(String::from("Basic dXNlcjpwYXNz")));
    assert!(matches!(s.redirect, RedirectRule::KeepOnDomain(ref d, 5) if d.as_str() == "http://target.example/"));
}

#[test]
fn builder_drops_a_timeout_that_is_not_positive() {
    let mut b = HttpClientBuilder::new();
    b.timeout_ms(0);
    let s = b.build();
    assert_eq!(s.timeout_ms, None);
    let mut b = HttpClientBuilder::new();
    b.timeout_ms(-3);
    assert_eq!(b.build().timeout_ms, None);
}

#[test]
fn client_settings_follow_the_configuration() {
    let mut cfg = scan_config("http://target.example/");
    cfg.gzip = true;
    cfg.timeout = 1500;
    cfg.username = Some(String::from("user"));
    cfg.password = Some(String::from("pass"));
    cfg.user_agent = Some(String::from("probe/1.0"));
    let s = make_http_client(&cfg).expect("credentials are within bounds");
    assert!(s.gzip);
    assert_eq!(s.timeout_ms, Some(1500));
    assert_eq!(s.user_agent.as_str(), "probe/1.0");
    assert_eq!(s.auth_header, Some(String::from("Basic dXNlcjpwYXNz")));
    assert!(matches!(s.redirect, RedirectRule::KeepOnDomain(ref d, 5) if d.as_str() == "http://target.example/"));
}

#[test]
fn scanner_assembles_extensions_and_ignore_codes() {
    let mut cfg = scan_config("http://target.example/");
    cfg.extentions = Some(vec![String::from("php"), String::from(" .bak ")]);
    cfg.ignore_codes = Some(vec![
        String::from("404"),
        String::from("x"),
        String::from("500"),
    ]);
    let args = CommonArgs {
        out_file: None,
        word_list: None,
        threads: 10,
        delay: 0,
        silent: false,
        verbose: 0,
        subcmd: Subcommand::HttpDir(scan_config("http://target.example/")),
    };
    let s = HttpDirScanner::new(args, cfg).expect("no credentials configured");
    let exts: Vec<&str> = s.extentions.iter().map(|e| e.as_str()).collect();
    assert_eq!(exts, vec![".php", ".bak"]);
    assert_eq!(s.ignore_codes, vec![404, 500]);
}

#[test]
fn status_codes_parse_as_the_standard_library_would() {
    assert_eq!(parse_u16("404"), Some(404));
    assert_eq!(parse_u16("+404"), Some(404));
    assert_eq!(parse_u16("0"), Some(0));
    assert_eq!(parse_u16("65535"), Some(65535));
    assert_eq!(parse_u16("65536"), None);
    assert_eq!(parse_u16("70000"), None);
    assert_eq!(parse_u16(""), None);
    assert_eq!(parse_u16("+"), None);
    assert_eq!(parse_u16("4x4"), None);
    assert_eq!(parse_u16(" 404"), None);
    assert_eq!(parse_u16("-1"), None);
}

#[test]
fn unparsable_ignore_codes_are_dropped_in_order() {
    let input = Some(vec![
        String::from("301"),
        String::from("nope"),
        String::from("404"),
    ]);
    assert_eq!(parse_ignore_codes(&input), vec![301, 404]);
    assert_eq!(parse_ignore_codes(&None), Vec::<u16>::new());
}

#[test]
fn worker_count_is_clamped() {
    assert_eq!(effective_threads(0), 1);
    assert_eq!(effective_threads(10), 10);
    assert_eq!(effective_threads(300), 300);
    assert_eq!(effective_threads(1000), 300);
}

#[test]
fn feeder_trims_each_line_into_a_word() {
    let a = feeder_step(FeederEvent::Line(String::from("  admin \n")));
    assert!(matches!(a, FeederAction::Send(ref w) if w.as_str() == "admin"));
    assert!(matches!(feeder_step(FeederEvent::EndOfInput), FeederAction::CloseAndJoin));
    assert!(matches!(feeder_step(FeederEvent::ReadFailed), FeederAction::AbortRun));
}

#[test]
fn feeder_pacing_after_a_send() {
    assert!(matches!(after_send_step(true, 100), PacingAction::StopFeeding));
    assert!(matches!(after_send_step(false, 100), PacingAction::Pause(100)));
    assert!(matches!(after_send_step(false, 0), PacingAction::Continue));
}

#[test]
fn trimming_follows_unicode_whitespace() {
    assert_eq!(trim_str("  a b\t"), "a b");
    assert_eq!(trim_str("\u{3000}x\u{3000}"), "x");
    assert_eq!(trim_str("   "), "");
    assert_eq!(trim_str("word"), "word");
}

#[test]
fn extensions_are_trimmed_and_dotted() {
    assert_eq!(normalize_extention("php").as_str(), ".php");
    assert_eq!(normalize_extention(" .php ").as_str(), ".php");
    assert_eq!(normalize_extention("").as_str(), ".");
}

#[test]
fn the_default_extension_list_is_appended_when_asked_for() {
    let explicit = Some(vec![String::from("zip")]);
    let exts = get_extention_list(&explicit, true);
    let got: Vec<&str> = exts.iter().map(|e| e.as_str()).collect();
    assert_eq!(
        got,
        vec![".zip", ".php", ".css", ".js", ".sql", ".aspx", ".asp", ".txt"]
    );
    assert!(get_extention_list(&None, false).is_empty());
}
