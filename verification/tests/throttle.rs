use psv::server::throttle::{ClientAddress, IpThrottler, Rate, Request, RequestData};
use psv::server::StatusCode;

fn throttler() -> IpThrottler {
    // at most two requests per second, a five second cool-off, cleared every minute
    IpThrottler::new(Rate { requests: 2, seconds: 1 }, 5000, 60)
}

/// Clock readings are in nanoseconds.
const MS: u64 = 1_000_000;

const CLIENT: ClientAddress = ClientAddress::V4([192, 168, 0, 1]);
const OTHER: ClientAddress = ClientAddress::V4([10, 0, 0, 7]);

#[test]
fn new_client_is_admitted() {
    let mut t = throttler();
    assert!(!t.is_limited_at(&CLIENT, "/index.html", 1000 * MS));
}

#[test]
fn ipv6_client_is_always_limited() {
    let mut t = throttler();
    let v6 = ClientAddress::V6([0x2001, 0xdb8, 0, 0, 0, 0, 0, 1]);
    assert!(t.is_limited_at(&v6, "/", 0));
    assert!(t.is_limited_at(&v6, "/", 100_000 * MS));
    assert_eq!(t.throttle(&v6, "/"), Some(StatusCode::TOO_MANY_REQUESTS));
}

#[test]
fn fast_second_request_is_limited() {
    let mut t = throttler();
    assert!(!t.is_limited_at(&CLIENT, "/", 1000 * MS));
    // one request in 100 ms is ten per second, more than two
    assert!(t.is_limited_at(&CLIENT, "/", 1100 * MS));
}

#[test]
fn refusal_repeats_at_same_instant() {
    let mut t = throttler();
    assert!(!t.is_limited_at(&CLIENT, "/", 1000 * MS));
    assert!(t.is_limited_at(&CLIENT, "/", 1100 * MS));
    assert!(t.is_limited_at(&CLIENT, "/", 1100 * MS));
    assert!(t.is_limited_at(&CLIENT, "/", 1100 * MS));
}

#[test]
fn admitted_after_cool_off() {
    let mut t = throttler();
    assert!(!t.is_limited_at(&CLIENT, "/", 1000 * MS));
    assert!(t.is_limited_at(&CLIENT, "/", 1100 * MS));
    // 6 s after the window started: past the 5 s cool-off
    assert!(!t.is_limited_at(&CLIENT, "/", 7000 * MS));
}

#[test]
fn over_rate_past_cool_off_resets_window() {
    // a rate so low that the client stays over it, and a short cool-off
    let mut t = IpThrottler::new(Rate { requests: 1, seconds: 1000 }, 2000, 600);
    assert!(!t.is_limited_at(&CLIENT, "/", 0));
    assert!(t.is_limited_at(&CLIENT, "/", 1500 * MS));
    // past the cool-off the window restarts empty
    assert!(!t.is_limited_at(&CLIENT, "/", 2500 * MS));
    // and a new request right away counts from the new window
    assert!(!t.is_limited_at(&CLIENT, "/", 2500 * MS));
}

#[test]
fn slow_requests_are_counted_within_rate() {
    let mut t = IpThrottler::new(Rate { requests: 10, seconds: 1 }, 5000, 60);
    assert!(!t.is_limited_at(&CLIENT, "/", 0));
    // one request in 500 ms: two per second, within ten
    assert!(!t.is_limited_at(&CLIENT, "/", 500 * MS));
    // two requests in 900 ms: within ten per second
    assert!(!t.is_limited_at(&CLIENT, "/", 900 * MS));
}

#[test]
fn other_clients_are_unaffected() {
    let mut t = throttler();
    assert!(!t.is_limited_at(&CLIENT, "/", 1000 * MS));
    assert!(t.is_limited_at(&CLIENT, "/", 1100 * MS));
    assert!(!t.is_limited_at(&OTHER, "/", 1100 * MS));
    // the same address asking for another uri is the same client
    assert!(t.is_limited_at(&CLIENT, "/other", 1100 * MS));
}

#[test]
fn clearing_forgets_limited_clients() {
    let mut t = throttler();
    assert!(!t.is_limited_at(&CLIENT, "/", 1000 * MS));
    assert!(t.is_limited_at(&CLIENT, "/", 1100 * MS));
    // not yet a minute since the last clear (at 0)
    t.check_clear_at(60_000 * MS);
    assert!(t.is_limited_at(&CLIENT, "/", 1100 * MS));
    // a nanosecond past the minute the records are due to be forgotten
    t.check_clear_at(60_000 * MS + 1);
    assert!(!t.is_limited_at(&CLIENT, "/", 60_001 * MS));
}

#[test]
fn throttle_at_answers_too_many_requests() {
    let mut t = throttler();
    assert_eq!(t.throttle_at(&CLIENT, "/", 1000 * MS), None);
    assert_eq!(t.throttle_at(&CLIENT, "/", 1100 * MS), Some(StatusCode::TOO_MANY_REQUESTS));
    // the clear period has passed: the records are forgotten first
    assert_eq!(t.throttle_at(&CLIENT, "/", 61_101 * MS), None);
}

#[test]
fn first_request_by_clock_is_admitted() {
    let mut t = throttler();
    t.check_clear();
    assert!(!t.is_limited(&CLIENT, "/"));
    assert_eq!(t.throttle(&OTHER, "/"), None);
}

#[test]
fn request_keys_depend_on_address_only() {
    let a = Request::new([127, 0, 0, 1], "/a");
    let b = Request::new([127, 0, 0, 1], "/a");
    let c = Request::new([127, 0, 0, 2], "/a");
    let d = Request::new([127, 0, 0, 1], "/b");
    assert_eq!(format!("{:?}", a), format!("{:?}", b));
    assert_ne!(format!("{:?}", a), format!("{:?}", c));
    assert_eq!(format!("{:?}", a), format!("{:?}", d));
}

#[test]
fn refusal_lasts_through_cool_off() {
    // ten requests per second, a five second cool-off
    let mut t = IpThrottler::new(Rate { requests: 10, seconds: 1 }, 5000, 60);
    let key = Request::new([192, 168, 0, 1], "/");
    assert!(!t.is_limited_at(&CLIENT, "/", 0));
    // one request in 100 ms: ten per second, within the rate
    assert!(!t.is_limited_at(&CLIENT, "/a.css", 100 * MS));
    // two requests in 150 ms: over the rate, refused, whatever the uri
    assert!(t.is_limited_at(&CLIENT, "/b.js", 150 * MS));
    assert!(t.record(&key).unwrap().was_refused());
    // two requests in 3 s are within the rate, but the cool-off has not passed
    assert!(t.is_limited_at(&CLIENT, "/", 3000 * MS));
    assert!(t.is_limited_at(&CLIENT, "/", 4999 * MS));
    // past the cool-off the client is let in again, in a new window
    assert!(!t.is_limited_at(&CLIENT, "/", 5000 * MS));
    assert!(!t.record(&key).unwrap().was_refused());
    assert_eq!(t.record(&key).unwrap().window_started(), 5000 * MS);
}

#[test]
fn records_count_requests_in_window() {
    let mut t = IpThrottler::new(Rate { requests: 10, seconds: 1 }, 5000, 60);
    let key = Request::new([192, 168, 0, 1], "/");
    assert!(t.record(&key).is_none());
    assert!(!t.is_limited_at(&CLIENT, "/", 0));
    let r = t.record(&key).unwrap();
    assert_eq!(r.request_count(), 1);
    assert_eq!(r.window_started(), 0);
    assert!(!r.was_refused());
    assert!(!t.is_limited_at(&CLIENT, "/", 500 * MS));
    assert_eq!(t.record(&key).unwrap().request_count(), 2);
    // a second after the window started a new one begins, empty
    assert!(!t.is_limited_at(&CLIENT, "/", 1500 * MS));
    let r = t.record(&key).unwrap();
    assert_eq!(r.request_count(), 0);
    assert_eq!(r.window_started(), 1500 * MS);
}

#[test]
fn request_data_clone_clears_refusal() {
    let mut t = throttler();
    let key = Request::new([192, 168, 0, 1], "/");
    assert!(!t.is_limited_at(&CLIENT, "/", 1000 * MS));
    assert!(t.is_limited_at(&CLIENT, "/", 1100 * MS));
    let stored = t.record(&key).unwrap();
    assert!(stored.was_refused());
    let copy = stored.clone();
    assert!(!copy.was_refused());
    assert_eq!(copy.request_count(), stored.request_count());
    assert_eq!(copy.window_started(), stored.window_started());
}

#[test]
fn windows_older_than_a_second_restart() {
    let mut t = IpThrottler::new(Rate { requests: 10, seconds: 1 }, 5000, 60);
    let key = Request::new([192, 168, 0, 1], "/");
    assert!(!t.is_limited_at(&CLIENT, "/", 0));
    assert!(!t.is_limited_at(&CLIENT, "/", 999 * MS));
    assert_eq!(t.record(&key).unwrap().request_count(), 2);
    assert_eq!(t.record(&key).unwrap().window_started(), 0);
    assert!(!t.is_limited_at(&CLIENT, "/", 1000 * MS));
    let r = t.record(&key).unwrap();
    assert_eq!(r.request_count(), 0);
    assert_eq!(r.window_started(), 1000 * MS);
    assert!(!r.was_refused());
}
