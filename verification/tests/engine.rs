//! The producer-consumer engine: channel, pool run, dispatcher.

use httpdir::channel::BoundedChannel;
use httpdir::dispatch::{Dispatcher, Worker};
use httpdir::pool::{run_round, PoolRun};
use httpdir::worker::{HttpDirWorker, WorkerConfig};

fn plain_config() -> WorkerConfig {
    WorkerConfig {
        target: String::from("http://target.example/"),
        extentions: Vec::new(),
        ignore_codes: Vec::new(),
        expand_url_log: false,
        print_fails: false,
    }
}

#[test]
fn channel_hands_items_out_in_order() {
    let mut c = BoundedChannel::new(2);
    assert!(c.send(String::from("a")).is_ok());
    assert!(c.send(String::from("b")).is_ok());
    assert_eq!(c.try_receive(), Some(String::from("a")));
    assert_eq!(c.try_receive(), Some(String::from("b")));
}

#[test]
fn channel_drains_then_reports_end_of_stream() {
    let mut c = BoundedChannel::new(1);
    assert!(c.send(String::from("last")).is_ok());
    c.close_send_side();
    assert_eq!(c.try_receive(), Some(String::from("last")));
    assert_eq!(c.try_receive(), None);
    assert_eq!(c.try_receive(), None);
}

#[test]
fn channel_refuses_send_after_close() {
    let mut c = BoundedChannel::new(1);
    c.close_send_side();
    c.close_send_side();
    assert!(c.send(String::from("late")).is_err());
}

#[test]
fn pool_drain_on_exhaustion() {
    // Five words, three workers: every worker reaches its terminal state
    // after exactly five items were consumed in total.
    let words = ["a", "b", "c", "d", "e"];
    let mut p = PoolRun::new(3, 1);
    for (n, w) in words.iter().enumerate() {
        p.feed(String::from(*w));
        p.pull(n % 3);
    }
    p.close_input();
    for i in 0..3 {
        assert!(!p.pull(i));
        assert!(p.workers[i].stopped);
    }
    let total: usize = p.workers.iter().map(|w| w.processed.len()).sum();
    assert_eq!(total, 5);
}

#[test]
fn pool_delivers_each_word_exactly_once() {
    let words = ["alpha", "beta", "gamma", "delta"];
    let mut p = PoolRun::new(2, 1);
    for (n, w) in words.iter().enumerate() {
        p.feed(String::from(*w));
        p.pull(n % 2);
    }
    p.close_input();
    for w in words.iter() {
        let count: usize = p
            .workers
            .iter()
            .map(|ws| ws.processed.iter().filter(|x| x.as_str() == *w).count())
            .sum();
        assert_eq!(count, 1, "word {} must be delivered exactly once", w);
    }
}

#[test]
fn pool_keeps_source_order_toward_a_single_worker() {
    let mut p = PoolRun::new(1, 1);
    for w in ["one", "two", "three"] {
        p.feed(String::from(w));
        p.pull(0);
    }
    let got: Vec<&str> = p.workers[0].processed.iter().map(|s| s.as_str()).collect();
    assert_eq!(got, vec!["one", "two", "three"]);
}

#[test]
fn a_whole_round_stops_every_worker_and_delivers_exactly_once() {
    let words: Vec<String> = ["a", "b", "c", "d", "e"]
        .iter()
        .map(|w| String::from(*w))
        .collect();
    let schedule: Vec<usize> = vec![0, 1, 2, 0, 1];
    let p = run_round(&words, 3, &schedule);
    assert_eq!(p.workers.len(), 3);
    for w in &p.workers {
        assert!(w.stopped);
    }
    let total: usize = p.workers.iter().map(|w| w.processed.len()).sum();
    assert_eq!(total, words.len());
    for w in &words {
        let count: usize = p
            .workers
            .iter()
            .map(|ws| ws.processed.iter().filter(|x| *x == w).count())
            .sum();
        assert_eq!(count, 1);
    }
}

#[test]
fn an_empty_word_list_still_drains_the_pool() {
    let p = run_round(&Vec::new(), 2, &Vec::new());
    assert!(p.workers.iter().all(|w| w.stopped));
    assert!(p.workers.iter().all(|w| w.processed.is_empty()));
}

#[test]
fn duplicate_words_are_processed_independently() {
    let words = vec![String::from("admin"), String::from("admin")];
    let p = run_round(&words, 2, &vec![0, 1]);
    let count: usize = p
        .workers
        .iter()
        .map(|ws| ws.processed.iter().filter(|x| x.as_str() == "admin").count())
        .sum();
    assert_eq!(count, 2);
}

#[test]
fn dispatcher_mints_workers_with_ordinals() {
    let mut d: Dispatcher<HttpDirWorker> = Dispatcher::new(plain_config());
    d.start_workers(3);
    assert_eq!(d.workers.len(), 3);
    for (i, w) in d.workers.iter().enumerate() {
        assert_eq!(w.id, i);
    }
}

#[test]
fn dispatcher_worker_new_keeps_ordinal() {
    let cfg = plain_config();
    let w = <HttpDirWorker as Worker>::new(7, &cfg);
    assert_eq!(w.id, 7);
}

#[test]
fn finish_and_wait_returns_first_error() {
    let mut d: Dispatcher<HttpDirWorker> = Dispatcher::new(plain_config());
    d.start_workers(3);
    let outcomes: Vec<Result<(), &str>> = vec![Ok(()), Err("boom"), Err("later")];
    assert_eq!(d.finish_and_wait(outcomes), Err("boom"));
}

#[test]
fn finish_and_wait_is_ok_when_all_join_cleanly() {
    let mut d: Dispatcher<HttpDirWorker> = Dispatcher::new(plain_config());
    d.start_workers(2);
    let outcomes: Vec<Result<(), &str>> = vec![Ok(()), Ok(())];
    assert_eq!(d.finish_and_wait(outcomes), Ok(()));
}
