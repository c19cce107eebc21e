use freenet_core::clock::Stopwatch;
use freenet_core::counters::add_wrapping;
use freenet_core::linear_map::{bytes_eq, LinearMap};
use freenet_core::ratio::Ratio;
use freenet_core::ring::{Location, PeerKeyLocation};
use freenet_core::text::{ascii_text, join, push_decimal};
use freenet_core::time::{Duration, Instant};

#[test]
fn decimals() {
    for n in [0, 7, 10, 99, 100, 1_234_567_890, u64::MAX] {
        let mut s = String::from("n=");
        push_decimal(&mut s, n);
        assert_eq!(s, format!("n={}", n));
    }
}

#[test]
fn text_pieces() {
    assert_eq!(join("ab", "cd"), "abcd");
    assert_eq!(ascii_text(b"Bearer xyz", 7, 10), "xyz");
    assert_eq!(ascii_text(b"Bearer xyz", 3, 3), "");
}

#[test]
fn ratios_of_nothing_are_nothing() {
    assert_eq!(Ratio::of(3, 4), Ratio { numer: 3, denom: 4 });
    assert_eq!(Ratio::of(3, 0), Ratio { numer: 0, denom: 1 });
}

#[test]
fn counters_wrap() {
    assert_eq!(add_wrapping(2, 3), 5);
    assert_eq!(add_wrapping(u64::MAX, 2), 1);
}

#[test]
fn spans_of_time() {
    let d = Duration::from_millis(1_500);
    assert_eq!((d.as_secs(), d.as_millis(), d.as_micros()), (1, 1_500, 1_500_000));
    assert_eq!(Duration::from_secs(2).as_nanos(), 2_000_000_000);
    assert_eq!(Duration::from_micros(3), Duration::from_nanos(3_000));
    let t = Instant { nanos: 10 };
    assert_eq!(t.after(Duration::from_nanos(5)), Instant { nanos: 15 });
    assert_eq!(Instant { nanos: 15 }.since(t), Duration::from_nanos(5));
    assert_eq!(t.since(Instant { nanos: 15 }), Duration::from_nanos(0));
}

#[test]
fn stopwatches_do_not_run_backwards() {
    let w = Stopwatch::start();
    let a = w.elapsed_nanos();
    let b = w.elapsed_nanos();
    assert!(a <= b);
}

#[test]
fn maps_hold_each_key_once() {
    let mut m: LinearMap<String, u32> = LinearMap::new();
    m.insert("a".to_string(), 1);
    m.insert("b".to_string(), 2);
    m.insert("a".to_string(), 3);
    assert_eq!(m.len(), 2);
    assert_eq!(m.get(&"a".to_string()), Some(&3));
    *m.get_mut(&"b".to_string()).unwrap() = 5;
    assert_eq!(m.get(&"b".to_string()), Some(&5));
    m.remove(&"a".to_string());
    assert!(!m.contains_key(&"a".to_string()));
    assert_eq!(m.len(), 1);
    assert!(m.index_of(&"c".to_string()).is_none());
}

#[test]
fn bytes_compare() {
    assert!(bytes_eq(&[1, 2], &[1, 2]));
    assert!(!bytes_eq(&[1, 2], &[1, 3]));
    assert!(!bytes_eq(&[1, 2], &[1]));
}

#[test]
fn peers_keep_their_place() {
    let p = PeerKeyLocation::new([1; 32], Location { bits: 7 }, "a:1".to_string());
    let q = p.duplicate();
    assert_eq!((q.key, q.location, q.addr.as_str()), (p.key, p.location, "a:1"));
}
