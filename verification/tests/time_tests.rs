use std::cmp::Ordering;
use card25::time::{Duration, Instant, Ticker, TICK_HZ};

#[test]
fn durations_count_ticks() {
    assert_eq!(TICK_HZ, 10_000);
    assert_eq!(Duration::from_millis(250).as_ticks(), 2500);
    assert_eq!(Duration::from_secs(45).as_ticks(), 450_000);
    assert_eq!(Duration::from_ticks(18).as_ticks(), 18);
    assert_eq!(Duration::from_ticks(9).max(Duration::from_ticks(18)).as_ticks(), 18);
    assert_eq!(Duration::from_ticks(40).max(Duration::from_ticks(18)).as_ticks(), 40);
}

#[test]
fn instant_duration_since() {
    let a = Instant::from_ticks(100);
    let b = Instant::from_ticks(350);
    assert_eq!(b.as_ticks(), 350);
    assert_eq!(b.checked_duration_since(a).map(|d| d.as_ticks()), Some(250));
    assert_eq!(a.checked_duration_since(b).map(|d| d.as_ticks()), None);
    assert_eq!(b.duration_since(a).as_ticks(), 250);
    assert_eq!(a.saturating_duration_since(b).as_ticks(), 0);
    assert_eq!(a.elapsed(b).as_ticks(), 250);
}

#[test]
fn instant_wraps_around() {
    let late = Instant::from_ticks(i32::MAX - 4);
    let later = late.add_duration(Duration::from_ticks(10));
    assert_eq!(later.as_ticks(), i32::MIN + 5);
    assert_eq!(later.duration_since(late).as_ticks(), 10);
    assert!(late.le(&later));
    assert!(!later.le(&late));
    let back = later.sub_duration(Duration::from_ticks(10));
    assert_eq!(back.as_ticks(), i32::MAX - 4);
    let mut m = Instant::from_ticks(i32::MIN);
    m.sub_assign(Duration::from_ticks(1));
    assert_eq!(m.as_ticks(), i32::MAX);
    m.add_assign(Duration::from_ticks(1));
    assert_eq!(m.as_ticks(), i32::MIN);
}

#[test]
fn add_sub_roundtrip_law() {
    for t in [i32::MIN, -5, 0, 7, i32::MAX] {
        for d in [0u32, 1, 1000, u32::MAX] {
            let i = Instant::from_ticks(t);
            let j = i.add_duration(Duration::from_ticks(d)).sub_duration(Duration::from_ticks(d));
            assert_eq!(j.as_ticks(), t);
        }
    }
}

#[test]
fn since_after_add_law() {
    for t in [i32::MIN, -1, 0, 12345, i32::MAX] {
        for d in [0u32, 1, 5000, i32::MAX as u32] {
            let i = Instant::from_ticks(t);
            let j = i.add_duration(Duration::from_ticks(d));
            assert_eq!(j.duration_since(i).as_ticks(), d);
            assert!(i.le(&j));
        }
    }
}

#[test]
fn ticker_periods() {
    let now = Instant::from_ticks(0);
    let mut t = Ticker::every(now, Duration::from_millis(20));
    assert_eq!(t.expires_at.as_ticks(), 200);
    assert!(!t.expired(Instant::from_ticks(199)));
    assert!(!t.consume_expired(Instant::from_ticks(199)));
    assert_eq!(t.expires_at.as_ticks(), 200);
    assert!(t.consume_expired(Instant::from_ticks(200)));
    assert_eq!(t.expires_at.as_ticks(), 400);
    t.consume_next();
    assert_eq!(t.expires_at.as_ticks(), 600);
    t.reset(Instant::from_ticks(1000));
    assert_eq!(t.expires_at.as_ticks(), 1200);
    t.set_duration(Duration::from_ticks(50));
    assert_eq!(t.duration().as_ticks(), 50);
    assert_eq!(t.expires_at.as_ticks(), 1200);
}

#[test]
fn instants_compare_by_wrapping_difference() {
    let a = Instant::from_ticks(5);
    let b = Instant::from_ticks(9);
    assert_eq!(a.cmp(&b), Ordering::Less);
    assert_eq!(b.cmp(&a), Ordering::Greater);
    assert_eq!(a.cmp(&a), Ordering::Equal);
    assert_eq!(a.partial_cmp(&b), Some(Ordering::Less));
    let late = Instant::from_ticks(i32::MAX - 4);
    let wrapped = late.add_duration(Duration::from_ticks(10));
    assert_eq!(late.cmp(&wrapped), Ordering::Less);
    assert_eq!(wrapped.cmp(&late), Ordering::Greater);
    assert!(late.le(&wrapped));
    assert_eq!(Instant::earliest().cmp(&Instant::latest()), Ordering::Greater);
    assert_eq!(Instant::earliest().cmp(&Instant::from_ticks(1)), Ordering::Greater);
    assert_eq!(Instant::earliest().cmp(&Instant::from_ticks(0)), Ordering::Less);
    assert_eq!(Instant::latest().cmp(&Instant::from_ticks(0)), Ordering::Greater);
    assert_eq!(Instant::earliest().as_ticks(), i32::MIN);
    assert_eq!(Instant::latest().as_ticks(), i32::MAX);
    assert!(a == Instant::from_ticks(5));
}
