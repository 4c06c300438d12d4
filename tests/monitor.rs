use delog::keywords::KeywordSet;
use delog::monitor::{Monitor, Phase, CONTINUE_KEY};

const NOTICE: &str = "Breakpoint hit: process paused. Press 'c' to continue...";

fn monitor() -> Monitor {
    Monitor::new(KeywordSet::standard())
}

#[test]
fn starts_streaming() {
    assert_eq!(monitor().phase(), Phase::Streaming);
    assert_eq!(CONTINUE_KEY, 'c');
}

#[test]
fn plain_line_is_printed_once_without_pause() {
    let mut m = monitor();
    let out = m.on_line("INFO: Application running");
    assert_eq!(out, vec!["INFO: Application running".to_string()]);
    assert_eq!(m.phase(), Phase::Streaming);
}

#[test]
fn empty_line_is_echoed() {
    let mut m = monitor();
    assert_eq!(m.on_line(""), vec![String::new()]);
    assert_eq!(m.phase(), Phase::Streaming);
}

#[test]
fn keyword_line_is_printed_then_notice_then_pause() {
    let mut m = monitor();
    let out = m.on_line("worker: BREAK here");
    assert_eq!(out, vec!["worker: BREAK here".to_string(), NOTICE.to_string()]);
    assert_eq!(m.phase(), Phase::Paused);
}

#[test]
fn only_the_continue_key_resumes() {
    let mut m = monitor();
    m.on_line("BREAKPOINT");
    assert!(!m.on_key('x'));
    assert!(!m.on_key('C'));
    assert_eq!(m.phase(), Phase::Paused);
    assert!(m.on_key('c'));
    assert_eq!(m.phase(), Phase::Streaming);
}

#[test]
fn closing_the_stream_finishes() {
    let mut m = monitor();
    m.on_line("INFO: done");
    m.on_closed();
    assert_eq!(m.phase(), Phase::Finished);
}

#[test]
fn log_generator_run() {
    let lines = [
        "INFO: Starting application",
        "DEBUG: Initializing components",
        "INFO: Application running",
        "ERROR: Something went wrong",
        "BREAKPOINT: Simulating a breakpoint",
        "DEBUG: Pausing execution",
        "INFO: Application shutting down",
    ];
    let mut m = monitor();
    let mut printed: Vec<String> = Vec::new();
    for line in &lines[..4] {
        printed.extend(m.on_line(line));
        assert_eq!(m.phase(), Phase::Streaming);
    }
    assert_eq!(printed, lines[..4].iter().map(|s| s.to_string()).collect::<Vec<_>>());

    printed.extend(m.on_line(lines[4]));
    assert_eq!(m.phase(), Phase::Paused);
    assert_eq!(printed[4], lines[4]);
    assert_eq!(printed[5], NOTICE);

    assert!(m.on_key('c'));
    for line in &lines[5..] {
        printed.extend(m.on_line(line));
    }
    m.on_closed();
    assert_eq!(m.phase(), Phase::Finished);
    assert_eq!(printed.len(), 8);
    assert_eq!(printed[6], lines[5]);
    assert_eq!(printed[7], lines[6]);
}

#[test]
fn lines_after_a_pause_keep_their_order() {
    let mut m = monitor();
    let mut printed: Vec<String> = Vec::new();
    printed.extend(m.on_line("one"));
    printed.extend(m.on_line("two BREAK"));
    assert!(m.on_key('c'));
    printed.extend(m.on_line("three"));
    printed.extend(m.on_line("BREAKPOINT four"));
    assert!(m.on_key('c'));
    printed.extend(m.on_line("five"));
    let echoed: Vec<&String> = printed.iter().filter(|s| s.as_str() != NOTICE).collect();
    assert_eq!(echoed, vec!["one", "two BREAK", "three", "BREAKPOINT four", "five"]);
}
