//! The log.

use ramp::logger::{RingBuffer, SharedLog, DEFAULT_MAX_LINES};

#[test]
fn ring_buffer_evicts_oldest() {
    let mut buf = RingBuffer::new(3);
    buf.push("a".into());
    buf.push("b".into());
    buf.push("c".into());
    buf.push("d".into());
    let tail = buf.all();
    assert_eq!(tail, vec!["b", "c", "d"]);
}

#[test]
fn tail_returns_last_n() {
    let mut buf = RingBuffer::new(100);
    for i in 0..10 {
        buf.push(format!("{i}"));
    }
    let t = buf.tail(3);
    assert_eq!(t, vec!["7", "8", "9"]);
}

#[test]
fn tail_of_more_than_there_is_returns_all() {
    let mut buf = RingBuffer::new(5);
    assert!(buf.tail(3).is_empty());
    buf.push("only".into());
    assert_eq!(buf.tail(3), vec!["only"]);
    assert!(buf.tail(0).is_empty());
}

#[test]
fn ring_buffer_keeps_the_last_lines() {
    let mut buf = RingBuffer::new(7);
    for i in 0..1000 {
        buf.push(format!("{i}"));
    }
    let expected: Vec<String> = (993..1000).map(|i| format!("{i}")).collect();
    assert_eq!(buf.all(), expected);
}

#[test]
fn ring_buffer_without_a_limit_keeps_everything() {
    let mut buf = RingBuffer::new(0);
    buf.push("a".into());
    buf.push("b".into());
    assert_eq!(buf.all(), vec!["a", "b"]);
}

#[test]
fn shared_log_is_shared() {
    let log = SharedLog::new();
    let other = log.clone();
    log.push("one".into());
    other.push("two".into());
    assert_eq!(log.tail(10), vec!["one", "two"]);
    assert_eq!(other.tail(1), vec!["two"]);
}

#[test]
fn shared_log_is_bounded() {
    let log = SharedLog::new();
    for i in 0..DEFAULT_MAX_LINES + 1 {
        log.push(format!("{i}"));
    }
    let all = log.tail(2 * DEFAULT_MAX_LINES);
    assert_eq!(all.len(), DEFAULT_MAX_LINES);
    assert_eq!(all[0], "1");
    assert_eq!(all[DEFAULT_MAX_LINES - 1], "1000");
}
