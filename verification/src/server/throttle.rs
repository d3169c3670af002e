//! Per-client request throttling.
//!
//! Each client is identified by the SHA-512 digest of its IPv4 address: all
//! its requests, for pages and resources alike, count towards one limit. For
//! every client the throttler keeps how many requests arrived in the current
//! window, when the window started, and whether it was refused. A client whose
//! request rate within its window exceeds the configured maximum is refused,
//! and stays refused until the cool-off period since its window start has
//! passed.
//!
//! Clock readings are nanoseconds of a monotonic clock that starts when the
//! throttler is made. A window's age is counted in whole milliseconds, as
//! `Duration::as_millis` counts it; the clear period is compared with the
//! nanoseconds since the last clear, as durations compare.
use vstd::prelude::*;
use std::time::Instant;

use crate::server::StatusCode;

verus! {

// ---------------------------------------------------------------------------
// Outside items
// ---------------------------------------------------------------------------

/// The SHA-512 digest of a byte string, as `openssl::sha::sha512` computes it.
pub uninterp spec fn sha512_digest(data: Seq<u8>) -> Seq<u8>;

/// `openssl::sha::sha512` hashes `data` with SHA-512. The contract claims only
/// that the 64 bytes returned are a function of `data` alone.
pub assume_specification[ openssl::sha::sha512 ](data: &[u8]) -> (digest: [u8; 64])
    ensures
        digest@ == sha512_digest(data@),
;

#[verifier::external_type_specification]
#[verifier::external_body]
pub struct ExInstant(Instant);

/// Reads the monotonic clock with `Instant::now`. Nothing is claimed of the
/// reading.
#[verifier::external_body]
fn clock_now() -> Instant {
    Instant::now()
}

/// The nanoseconds that have passed since `start`, from `Instant::elapsed`
/// and `Duration::as_nanos` (a `u64` holds some 584 years of them). The value
/// depends on the time of the call; nothing is claimed of it.
#[verifier::external_body]
fn nanos_since(start: &Instant) -> u64 {
    start.elapsed().as_nanos() as u64
}

// ---------------------------------------------------------------------------
// Clients and their records
// ---------------------------------------------------------------------------

/// The address a request came from.
#[derive(Debug, Clone, Copy)]
pub enum ClientAddress {
    V4([u8; 4]),
    V6([u16; 8]),
}

/// The key under which the throttler records a client: the SHA-512 digest of
/// the four octets of its IPv4 address. The uri requested plays no part: the
/// limit counts all requests of an address.
pub open spec fn request_key(ip: Seq<u8>, uri: Seq<char>) -> Seq<u8> {
    sha512_digest(ip)
}

/// A client of the throttler: one IPv4 address.
#[derive(Debug, Clone, Copy)]
pub struct Request {
    hash: [u8; 64],
}

impl Request {
    /// The key of the request.
    pub closed spec fn key(&self) -> Seq<u8> {
        self.hash@
    }

    /// The request of the client `ip` for `uri`, keyed by the address alone.
    pub fn new(ip: [u8; 4], uri: &str) -> (r: Request)
        ensures
            r.key() == request_key(ip@, uri@),
    {
        Request { hash: openssl::sha::sha512(ip.as_slice()) }
    }
}

/// What the throttler records of a client.
#[derive(Debug)]
pub struct RequestData {
    count: u32,
    last_request_time: u64,
    timeout: bool,
}

impl RequestData {
    /// Requests counted in the current window.
    pub closed spec fn count(&self) -> u32 {
        self.count
    }

    /// When the current window started.
    pub closed spec fn window_start(&self) -> u64 {
        self.last_request_time
    }

    /// Whether the client was refused at its last request.
    pub closed spec fn timed_out(&self) -> bool {
        self.timeout
    }

    /// Requests counted in the current window.
    pub fn request_count(&self) -> (c: u32)
        ensures
            c == self.count(),
    {
        self.count
    }

    /// When the current window started.
    pub fn window_started(&self) -> (t: u64)
        ensures
            t == self.window_start(),
    {
        self.last_request_time
    }

    /// Whether the client was refused at its last request.
    pub fn was_refused(&self) -> (r: bool)
        ensures
            r == self.timed_out(),
    {
        self.timeout
    }

    /// A copy of the record that keeps the count and the window start and
    /// clears the refusal mark.
    pub fn clone(&self) -> (r: RequestData)
        ensures
            r.count() == self.count(),
            r.window_start() == self.window_start(),
            !r.timed_out(),
    {
        RequestData { count: self.count, last_request_time: self.last_request_time, timeout: false }
    }
}

/// A request rate of `requests / seconds` requests per second.
#[derive(Debug, Clone, Copy)]
pub struct Rate {
    pub requests: u64,
    pub seconds: u64,
}

impl Rate {
    /// The rates that the throttler can count: a positive time span, and at
    /// most `u32::MAX` requests per second, since the throttler counts a
    /// client's requests in a `u32`.
    pub open spec fn valid(self) -> bool {
        self.seconds > 0 && self.requests <= (u32::MAX as int) * (self.seconds as int)
    }
}

/// `count` requests in `elapsed` milliseconds are more than `rate` allows:
/// `count / (elapsed / 1000) > requests / seconds`, multiplied out. With no
/// time elapsed, any request at all exceeds the rate.
pub open spec fn rate_exceeded(count: u32, elapsed: u64, rate: Rate) -> bool {
    (count as int) * 1000 * (rate.seconds as int) > (rate.requests as int) * (elapsed as int)
}

/// Nanoseconds from the reading `since` to the reading `now`; zero if the
/// clock reads earlier.
pub open spec fn elapsed_nanos(since: u64, now: u64) -> u64 {
    if now >= since { (now - since) as u64 } else { 0 }
}

/// Whole milliseconds from the reading `since` to the reading `now`.
pub open spec fn elapsed_millis(since: u64, now: u64) -> u64 {
    elapsed_nanos(since, now) / 1_000_000
}

/// The record of a client first seen at `now`.
pub closed spec fn fresh_record(now: u64) -> RequestData {
    RequestData { count: 0, last_request_time: now, timeout: false }
}

/// One request of a client whose record was `stored`, at time `now`: whether
/// it is refused, and the record kept afterwards.
///
/// A client that was refused at its last request, or is over the rate, is
/// refused while its window is younger than the cool-off period, and starts a
/// new, empty window otherwise. A client within the rate is counted while its
/// window is younger than a second, and starts a new, empty window otherwise.
pub closed spec fn limit_step(stored: Option<RequestData>, now: u64, rate: Rate, timeout_millis: u128) -> (bool, RequestData) {
    let d = match stored {
        Some(d) => d,
        None => fresh_record(now),
    };
    let time = elapsed_millis(d.last_request_time, now);
    if d.timeout || rate_exceeded(d.count, time, rate) {
        if (time as int) < (timeout_millis as int) {
            (true, RequestData { count: d.count, last_request_time: d.last_request_time, timeout: true })
        } else {
            (false, fresh_record(now))
        }
    } else if time < 1000 {
        (false, RequestData { count: (d.count + 1) as u32, last_request_time: d.last_request_time, timeout: false })
    } else {
        (false, fresh_record(now))
    }
}

/// The record that `m` holds for `k`, if any.
pub open spec fn lookup(m: Map<Seq<u8>, RequestData>, k: Seq<u8>) -> Option<RequestData> {
    if m.contains_key(k) { Some(m[k]) } else { None }
}

// ---------------------------------------------------------------------------
// The table of records
// ---------------------------------------------------------------------------

spec fn entries_map(s: Seq<(Request, RequestData)>) -> Map<Seq<u8>, RequestData>
    decreases s.len(),
{
    if s.len() == 0 {
        Map::empty()
    } else {
        entries_map(s.drop_last()).insert(s.last().0.hash@, s.last().1)
    }
}

spec fn distinct_keys(s: Seq<(Request, RequestData)>) -> bool {
    forall|i: int, j: int|
        0 <= i < s.len() && 0 <= j < s.len() && i != j ==> #[trigger] s[i].0.hash@ != #[trigger] s[j].0.hash@
}

proof fn lemma_entries_map_has(s: Seq<(Request, RequestData)>, i: int)
    requires
        distinct_keys(s),
        0 <= i < s.len(),
    ensures
        entries_map(s).contains_key(s[i].0.hash@),
        entries_map(s)[s[i].0.hash@] == s[i].1,
    decreases s.len(),
{
    if i < s.len() - 1 {
        let t = s.drop_last();
        assert(t[i] == s[i]);
        assert(distinct_keys(t)) by {
            assert forall|a: int, b: int| 0 <= a < t.len() && 0 <= b < t.len() && a != b implies #[trigger] t[a].0.hash@ != #[trigger] t[b].0.hash@ by {
                assert(t[a] == s[a] && t[b] == s[b]);
            }
        }
        lemma_entries_map_has(t, i);
        assert(s.last() == s[s.len() - 1]);
        assert(s[s.len() - 1].0.hash@ != s[i].0.hash@);
    }
}

proof fn lemma_entries_map_lacks(s: Seq<(Request, RequestData)>, k: Seq<u8>)
    requires
        forall|i: int| 0 <= i < s.len() ==> #[trigger] s[i].0.hash@ != k,
    ensures
        !entries_map(s).contains_key(k),
    decreases s.len(),
{
    if s.len() > 0 {
        let t = s.drop_last();
        assert forall|i: int| 0 <= i < t.len() implies #[trigger] t[i].0.hash@ != k by {
            assert(t[i] == s[i]);
        }
        lemma_entries_map_lacks(t, k);
        assert(s[s.len() - 1].0.hash@ != k);
    }
}

proof fn lemma_entries_map_push(s: Seq<(Request, RequestData)>, e: (Request, RequestData))
    ensures
        entries_map(s.push(e)) == entries_map(s).insert(e.0.hash@, e.1),
{
    assert(s.push(e).drop_last() =~= s);
}

proof fn lemma_entries_map_update(s: Seq<(Request, RequestData)>, i: int, d: RequestData)
    requires
        distinct_keys(s),
        0 <= i < s.len(),
    ensures
        entries_map(s.update(i, (s[i].0, d))) =~= entries_map(s).insert(s[i].0.hash@, d),
    decreases s.len(),
{
    let t = s.update(i, (s[i].0, d));
    if i == s.len() - 1 {
        assert(t.drop_last() =~= s.drop_last());
    } else {
        let sd = s.drop_last();
        assert(t.drop_last() =~= sd.update(i, (sd[i].0, d)));
        assert(distinct_keys(sd)) by {
            assert forall|a: int, b: int| 0 <= a < sd.len() && 0 <= b < sd.len() && a != b implies #[trigger] sd[a].0.hash@ != #[trigger] sd[b].0.hash@ by {
                assert(sd[a] == s[a] && sd[b] == s[b]);
            }
        }
        lemma_entries_map_update(sd, i, d);
        assert(s[s.len() - 1].0.hash@ != s[i].0.hash@);
        assert(t.last() == s.last());
    }
}

proof fn lemma_distinct_push(s: Seq<(Request, RequestData)>, e: (Request, RequestData))
    requires
        distinct_keys(s),
        forall|i: int| 0 <= i < s.len() ==> #[trigger] s[i].0.hash@ != e.0.hash@,
    ensures
        distinct_keys(s.push(e)),
{
    let t = s.push(e);
    assert forall|a: int, b: int| 0 <= a < t.len() && 0 <= b < t.len() && a != b implies #[trigger] t[a].0.hash@ != #[trigger] t[b].0.hash@ by {
        if a < s.len() {
            assert(t[a] == s[a]);
        }
        if b < s.len() {
            assert(t[b] == s[b]);
        }
    }
}

proof fn lemma_distinct_update(s: Seq<(Request, RequestData)>, i: int, d: RequestData)
    requires
        distinct_keys(s),
        0 <= i < s.len(),
    ensures
        distinct_keys(s.update(i, (s[i].0, d))),
{
    let t = s.update(i, (s[i].0, d));
    assert forall|a: int, b: int| 0 <= a < t.len() && 0 <= b < t.len() && a != b implies #[trigger] t[a].0.hash@ != #[trigger] t[b].0.hash@ by {
        assert(t[a].0 == s[a].0 && t[b].0 == s[b].0);
    }
}

fn same_key(a: &[u8; 64], b: &[u8; 64]) -> (r: bool)
    ensures
        r == (a@ == b@),
{
    let mut i: usize = 0;
    while i < 64
        invariant
            i <= 64,
            forall|k: int| 0 <= k < i ==> a@[k] == b@[k],
        decreases 64 - i,
    {
        if a[i] != b[i] {
            return false;
        }
        i = i + 1;
    }
    assert(a@ =~= b@);
    true
}

// ---------------------------------------------------------------------------
// The throttler
// ---------------------------------------------------------------------------

/// Throttles clients that send requests faster than a configured rate.
pub struct IpThrottler {
    requests_from: Vec<(Request, RequestData)>,
    max_requests_per_second: Rate,
    timeout_millis: u128,
    clear_period_seconds: u64,
    last_clear: u64,
    clock: Instant,
}

impl IpThrottler {
    /// The records, by client key.
    pub closed spec fn table(&self) -> Map<Seq<u8>, RequestData> {
        entries_map(self.requests_from@)
    }

    /// The maximal rate of requests per client.
    pub closed spec fn max_rate(&self) -> Rate {
        self.max_requests_per_second
    }

    /// The cool-off period of a refused client, in milliseconds.
    pub closed spec fn timeout(&self) -> u128 {
        self.timeout_millis
    }

    /// How often all records are forgotten, in seconds.
    pub closed spec fn clear_period(&self) -> u64 {
        self.clear_period_seconds
    }

    /// When the records were last forgotten.
    pub closed spec fn last_cleared(&self) -> u64 {
        self.last_clear
    }

    /// The throttler's invariant: a rate it can count, and one record per key.
    pub closed spec fn wf(&self) -> bool {
        &&& self.max_requests_per_second.valid()
        &&& distinct_keys(self.requests_from@)
    }

    /// The clock that the throttler reads.
    pub closed spec fn clock(&self) -> Instant {
        self.clock
    }

    /// The throttler's settings and clock are the same in `self` and `other`.
    pub open spec fn same_settings(&self, other: &IpThrottler) -> bool {
        &&& self.clock() == other.clock()
        &&& self.max_rate() == other.max_rate()
        &&& self.timeout() == other.timeout()
        &&& self.clear_period() == other.clear_period()
    }

    /// A throttler with no records, whose clock starts now.
    pub fn new(max_requests_per_second: Rate, timeout_millis: u128, clear_period_seconds: u64) -> (t: IpThrottler)
        requires
            max_requests_per_second.valid(),
        ensures
            t.wf(),
            t.table() == Map::<Seq<u8>, RequestData>::empty(),
            t.max_rate() == max_requests_per_second,
            t.timeout() == timeout_millis,
            t.clear_period() == clear_period_seconds,
            t.last_cleared() == 0,
    {
        IpThrottler {
            requests_from: Vec::new(),
            max_requests_per_second,
            timeout_millis,
            clear_period_seconds,
            last_clear: 0,
            clock: clock_now(),
        }
    }

    /// The records are due to be forgotten at `now`: more than the clear
    /// period has passed since they last were.
    pub open spec fn clear_due(&self, now: u64) -> bool {
        (elapsed_nanos(self.last_cleared(), now) as int) > (self.clear_period() as int) * 1_000_000_000
    }

    /// `check_clear` at the clock reading `now`: forgets all records when they
    /// are due to be forgotten.
    pub fn check_clear_at(&mut self, now: u64)
        requires
            old(self).wf(),
        ensures
            final(self).wf(),
            final(self).same_settings(old(self)),
            old(self).clear_due(now) ==> final(self).table() == Map::<Seq<u8>, RequestData>::empty()
                && final(self).last_cleared() == now,
            !old(self).clear_due(now) ==> final(self).table() == old(self).table()
                && final(self).last_cleared() == old(self).last_cleared(),
    {
        let elapsed: u64 = if now >= self.last_clear { now - self.last_clear } else { 0 };
        if (elapsed as u128) > (self.clear_period_seconds as u128) * 1_000_000_000 {
            self.requests_from = Vec::new();
            self.last_clear = now;
        }
    }

    /// Forgets all records if the clear period has passed since they last
    /// were, by the throttler's clock.
    pub fn check_clear(&mut self)
        requires
            old(self).wf(),
        ensures
            final(self).wf(),
            final(self).same_settings(old(self)),
            exists|now: u64|
                {
                    &&& old(self).clear_due(now) ==> final(self).table() == Map::<Seq<u8>, RequestData>::empty()
                        && final(self).last_cleared() == now
                    &&& !old(self).clear_due(now) ==> final(self).table() == old(self).table()
                        && final(self).last_cleared() == old(self).last_cleared()
                },
    {
        let now = nanos_since(&self.clock);
        self.check_clear_at(now);
    }

    /// The outcome of a request from `addr` for `uri` at `now`, given the
    /// throttler `before` it and `after` it.
    pub open spec fn limited_by(before: IpThrottler, after: IpThrottler, addr: ClientAddress, uri: Seq<char>, now: u64, limited: bool) -> bool {
        match addr {
            ClientAddress::V6(_) => limited && after.table() == before.table(),
            ClientAddress::V4(ip) => {
                let key = request_key(ip@, uri);
                let step = limit_step(lookup(before.table(), key), now, before.max_rate(), before.timeout());
                &&& limited == step.0
                &&& after.table() == before.table().insert(key, step.1)
            },
        }
    }

    fn position_of(&self, request: &Request) -> (r: Option<usize>)
        ensures
            r matches Some(i) ==> i < self.requests_from@.len() && self.requests_from@[i as int].0.hash@
                == request.hash@,
            r is None ==> forall|i: int|
                0 <= i < self.requests_from@.len() ==> #[trigger] self.requests_from@[i].0.hash@ != request.hash@,
    {
        let mut i: usize = 0;
        while i < self.requests_from.len()
            invariant
                i <= self.requests_from@.len(),
                forall|k: int| 0 <= k < i ==> #[trigger] self.requests_from@[k].0.hash@ != request.hash@,
            decreases self.requests_from@.len() - i,
        {
            if same_key(&self.requests_from[i].0.hash, &request.hash) {
                return Some(i);
            }
            i = i + 1;
        }
        None
    }

    /// The record that the throttler holds for `request`, if any.
    pub fn record(&self, request: &Request) -> (r: Option<&RequestData>)
        requires
            self.wf(),
        ensures
            r matches Some(d) ==> lookup(self.table(), request.key()) == Some(*d),
            r is None ==> lookup(self.table(), request.key()) is None,
    {
        match self.position_of(request) {
            Some(i) => {
                proof { lemma_entries_map_has(self.requests_from@, i as int); }
                Some(&self.requests_from[i].1)
            },
            None => {
                proof { lemma_entries_map_lacks(self.requests_from@, request.hash@); }
                None
            },
        }
    }

    fn over_rate(count: u32, elapsed: u64, rate: &Rate) -> (r: bool)
        requires
            rate.valid(),
        ensures
            r == rate_exceeded(count, elapsed, *rate),
    {
        let c = count as u128;
        let s = rate.seconds as u128;
        let q = rate.requests as u128;
        let e = elapsed as u128;
        assert(c * 1000 * s <= 0xffff_ffff_ffff_ffff_ffff_ffff_ffff_ffff) by (nonlinear_arith)
            requires
                c < 0x1_0000_0000,
                s < 0x1_0000_0000_0000_0000,
        ;
        assert(q * e <= 0xffff_ffff_ffff_ffff_ffff_ffff_ffff_ffff) by (nonlinear_arith)
            requires
                q < 0x1_0000_0000_0000_0000,
                e < 0x1_0000_0000_0000_0000,
        ;
        c * 1000 * s > q * e
    }

    /// `is_limited` at the clock reading `now`. An IPv6 client is always
    /// refused and leaves no record; an IPv4 client is recorded under its key
    /// and answered as [`limit_step`] says.
    pub fn is_limited_at(&mut self, addr: &ClientAddress, uri: &str, now: u64) -> (limited: bool)
        requires
            old(self).wf(),
        ensures
            final(self).wf(),
            final(self).same_settings(old(self)),
            final(self).last_cleared() == old(self).last_cleared(),
            Self::limited_by(*old(self), *final(self), *addr, uri@, now, limited),
    {
        let ip: [u8; 4] = match addr {
            ClientAddress::V4(o) => *o,
            ClientAddress::V6(_) => {
                return true;
            },
        };
        let request = Request::new(ip, uri);
        let ghost key = request.hash@;
        let ghost before = self.requests_from@;
        let idx: usize = match self.position_of(&request) {
            Some(i) => {
                proof { lemma_entries_map_has(before, i as int); }
                i
            },
            None => {
                proof {
                    lemma_entries_map_lacks(before, key);
                    lemma_distinct_push(before, (request, fresh_record(now)));
                    lemma_entries_map_push(before, (request, fresh_record(now)));
                }
                self.requests_from.push((request, RequestData { count: 0, last_request_time: now, timeout: false }));
                self.requests_from.len() - 1
            },
        };
        let ghost mid = self.requests_from@;
        assert(mid[idx as int].0.hash@ == key);
        assert(mid[idx as int].1 == (match lookup(entries_map(before), key) { Some(d) => d, None => fresh_record(now) }));
        let requests = &self.requests_from[idx].1;
        let time: u64 = if now >= requests.last_request_time { (now - requests.last_request_time) / 1_000_000 } else { 0 };
        let limited: bool;
        let record: RequestData;
        if requests.timeout || Self::over_rate(requests.count, time, &self.max_requests_per_second) {
            if (time as u128) < self.timeout_millis {
                record = RequestData { count: requests.count, last_request_time: requests.last_request_time, timeout: true };
                limited = true;
            } else {
                record = RequestData { count: 0, last_request_time: now, timeout: false };
                limited = false;
            }
        } else if time < 1000 {
            let ghost q = self.max_requests_per_second.requests as int;
            let ghost s = self.max_requests_per_second.seconds as int;
            let ghost c = requests.count as int;
            assert(c < u32::MAX) by (nonlinear_arith)
                requires
                    c * 1000 * s <= q * (time as int),
                    0 <= time < 1000,
                    s > 0,
                    0 <= c,
                    q <= (u32::MAX as int) * s,
            ;
            record = RequestData { count: requests.count + 1, last_request_time: requests.last_request_time, timeout: false };
            limited = false;
        } else {
            record = RequestData { count: 0, last_request_time: now, timeout: false };
            limited = false;
        }
        proof {
            lemma_distinct_update(mid, idx as int, record);
            lemma_entries_map_update(mid, idx as int, record);
        }
        let stored = self.requests_from[idx].0;
        self.requests_from.set(idx, (stored, record));
        assert(self.requests_from@ == mid.update(idx as int, (mid[idx as int].0, record)));
        proof {
            let stored_rec = lookup(entries_map(before), key);
            let step = limit_step(stored_rec, now, self.max_requests_per_second, self.timeout_millis);
            assert(*requests == mid[idx as int].1);
            assert(limited == step.0 && record == step.1);
            assert(entries_map(mid) =~= entries_map(before) || entries_map(mid) =~= entries_map(before).insert(key, fresh_record(now)));
            assert(entries_map(self.requests_from@) =~= entries_map(before).insert(key, record));
        }
        limited
    }

    /// Whether a request from `addr` for `uri` is refused, by the throttler's
    /// clock. Records the request.
    pub fn is_limited(&mut self, addr: &ClientAddress, uri: &str) -> (limited: bool)
        requires
            old(self).wf(),
        ensures
            final(self).wf(),
            final(self).same_settings(old(self)),
            final(self).last_cleared() == old(self).last_cleared(),
            exists|now: u64| Self::limited_by(*old(self), *final(self), *addr, uri@, now, limited),
    {
        let now = nanos_since(&self.clock);
        self.is_limited_at(addr, uri, now)
    }

    /// The throttling step of a request from `addr` for `uri` at `now`, given
    /// the throttler `before` it and `after` it: the records are forgotten if
    /// they are due, then the request is answered as [`IpThrottler::limited_by`]
    /// says, `TOO_MANY_REQUESTS` when refused.
    pub open spec fn throttled_by(before: IpThrottler, after: IpThrottler, addr: ClientAddress, uri: Seq<char>, now: u64, refusal: Option<StatusCode>) -> bool {
        &&& after.same_settings(&before)
        &&& refusal matches Some(s) ==> s == StatusCode::TOO_MANY_REQUESTS
        &&& exists|cleared: IpThrottler|
            {
                &&& before.clear_due(now) ==> cleared.table() == Map::<Seq<u8>, RequestData>::empty()
                &&& !before.clear_due(now) ==> cleared.table() == before.table()
                &&& #[trigger] cleared.same_settings(&before)
                &&& Self::limited_by(cleared, after, addr, uri, now, refusal is Some)
            }
    }

    /// The throttling step of serving a request at `now`: forget the records if
    /// they are due, then answer `TooManyRequests` for a refused request and
    /// nothing for an admitted one.
    pub fn throttle_at(&mut self, addr: &ClientAddress, uri: &str, now: u64) -> (refusal: Option<StatusCode>)
        requires
            old(self).wf(),
        ensures
            final(self).wf(),
            Self::throttled_by(*old(self), *final(self), *addr, uri@, now, refusal),
    {
        self.check_clear_at(now);
        let ghost cleared = *self;
        if self.is_limited_at(addr, uri, now) {
            Some(StatusCode::TOO_MANY_REQUESTS)
        } else {
            None
        }
    }

    /// The throttling step of serving a request, by the throttler's clock.
    pub fn throttle(&mut self, addr: &ClientAddress, uri: &str) -> (refusal: Option<StatusCode>)
        requires
            old(self).wf(),
        ensures
            final(self).wf(),
            exists|now: u64| Self::throttled_by(*old(self), *final(self), *addr, uri@, now, refusal),
    {
        let now = nanos_since(&self.clock);
        self.throttle_at(addr, uri, now)
    }
}

// ---------------------------------------------------------------------------
// Laws
// ---------------------------------------------------------------------------

/// The requests counted in a client's stored record; none for a client first
/// seen.
pub open spec fn stored_count(stored: Option<RequestData>) -> u32 {
    match stored {
        Some(d) => d.count(),
        None => 0,
    }
}

/// When a client's stored window started; `now` for a client first seen.
pub open spec fn stored_window(stored: Option<RequestData>, now: u64) -> u64 {
    match stored {
        Some(d) => d.window_start(),
        None => now,
    }
}

/// Whether a client's stored record marks it refused; not for a client first
/// seen.
pub open spec fn stored_refused(stored: Option<RequestData>) -> bool {
    match stored {
        Some(d) => d.timed_out(),
        None => false,
    }
}

/// One throttling step, branch by branch. A client held back (refused before,
/// or over the rate) is refused while its window is younger than the cool-off
/// period, and keeps its count and window, marked refused; past the cool-off
/// it is admitted in a new, empty window. A client within the rate is admitted:
/// counted while its window is younger than a second, else in a new, empty
/// window. A client first seen has an empty window that starts now.
pub proof fn law_limit_step(stored: Option<RequestData>, now: u64, rate: Rate, timeout_millis: u128)
    ensures
        ({
            let count = stored_count(stored);
            let window = stored_window(stored, now);
            let time = elapsed_millis(window, now);
            let held = stored_refused(stored) || rate_exceeded(count, time, rate);
            let limited = limit_step(stored, now, rate, timeout_millis).0;
            let after = limit_step(stored, now, rate, timeout_millis).1;
            &&& limited == (held && (time as int) < (timeout_millis as int))
            &&& limited ==> after.count() == count && after.window_start() == window && after.timed_out()
            &&& held && !limited ==> after.count() == 0 && after.window_start() == now && !after.timed_out()
            &&& !held && time < 1000 ==> after.count() == (count + 1) as u32 && after.window_start() == window
                && !after.timed_out()
            &&& !held && time >= 1000 ==> after.count() == 0 && after.window_start() == now && !after.timed_out()
        }),
{
}

/// A client that the throttler holds no record of is admitted, and its window
/// starts at that request with a count of one.
pub proof fn law_new_client_admitted(now: u64, rate: Rate, timeout_millis: u128)
    ensures
        !limit_step(None, now, rate, timeout_millis).0,
        limit_step(None, now, rate, timeout_millis).1.count() == 1,
        limit_step(None, now, rate, timeout_millis).1.window_start() == now,
{
    assert(elapsed_millis(now, now) == 0);
    assert((0u32 as int) * 1000 * (rate.seconds as int) == 0);
    assert((rate.requests as int) * 0 == 0);
    assert(!rate_exceeded(0, 0, rate));
}

/// A client is refused only when it was refused before or its requests in
/// the current window exceed the maximal rate, and the window is younger than
/// the cool-off period.
pub proof fn law_refused_only_over_rate_within_cool_off(d: RequestData, now: u64, rate: Rate, timeout_millis: u128)
    requires
        limit_step(Some(d), now, rate, timeout_millis).0,
    ensures
        d.timed_out() || rate_exceeded(d.count(), elapsed_millis(d.window_start(), now), rate),
        (elapsed_millis(d.window_start(), now) as int) < (timeout_millis as int),
{
}

/// A refused client stays refused, whatever its rate, until the cool-off
/// period since its window started has passed; its record keeps the refusal.
pub proof fn law_refusal_lasts_through_cool_off(d: RequestData, now: u64, rate: Rate, timeout_millis: u128)
    requires
        d.timed_out(),
        (elapsed_millis(d.window_start(), now) as int) < (timeout_millis as int),
    ensures
        limit_step(Some(d), now, rate, timeout_millis).0,
        limit_step(Some(d), now, rate, timeout_millis).1.timed_out(),
        limit_step(Some(d), now, rate, timeout_millis).1.window_start() == d.window_start(),
{
}

/// The key of a client is the SHA-512 digest of all four octets of its
/// address, whatever uri it asks for: two requests share a record exactly when
/// the digests of their whole addresses agree, so addresses that differ in any
/// octet share one only through a SHA-512 collision.
pub proof fn law_key_covers_whole_address(ip1: Seq<u8>, uri1: Seq<char>, ip2: Seq<u8>, uri2: Seq<char>)
    ensures
        request_key(ip1, uri1) == sha512_digest(ip1),
        (request_key(ip1, uri1) == request_key(ip2, uri2)) <==> (sha512_digest(ip1) == sha512_digest(ip2)),
{
}

/// Requests for different uris from one address are one client: the
/// throttler records them under the same key.
pub proof fn law_all_uris_count_per_address(ip: Seq<u8>, uri1: Seq<char>, uri2: Seq<char>)
    ensures
        request_key(ip, uri1) == request_key(ip, uri2),
{
}

/// Once the cool-off period has passed since its window started, a client is
/// admitted again.
pub proof fn law_admitted_after_cool_off(d: RequestData, now: u64, rate: Rate, timeout_millis: u128)
    requires
        (elapsed_millis(d.window_start(), now) as int) >= (timeout_millis as int),
    ensures
        !limit_step(Some(d), now, rate, timeout_millis).0,
{
}

/// A refused client that asks again at the same instant is refused again, and
/// its record stays as it is.
pub proof fn law_refusal_repeats(stored: Option<RequestData>, now: u64, rate: Rate, timeout_millis: u128)
    requires
        limit_step(stored, now, rate, timeout_millis).0,
    ensures
        limit_step(Some(limit_step(stored, now, rate, timeout_millis).1), now, rate, timeout_millis)
            == limit_step(stored, now, rate, timeout_millis),
{
}

/// A request leaves the records of every other client as they were.
pub proof fn law_other_clients_unaffected(
    before: IpThrottler,
    after: IpThrottler,
    addr: ClientAddress,
    uri: Seq<char>,
    now: u64,
    limited: bool,
    other: Seq<u8>,
)
    requires
        IpThrottler::limited_by(before, after, addr, uri, now, limited),
        addr matches ClientAddress::V4(ip) ==> other != request_key(ip@, uri),
    ensures
        lookup(after.table(), other) == lookup(before.table(), other),
{
}

/// An admitted request that is counted in the current window was within the
/// maximal rate: its count before the request, over the window's age, did not
/// exceed the rate.
pub proof fn law_counted_requests_within_rate(d: RequestData, now: u64, rate: Rate, timeout_millis: u128)
    requires
        rate.valid(),
        limit_step(Some(d), now, rate, timeout_millis).1.window_start() == d.window_start(),
        !limit_step(Some(d), now, rate, timeout_millis).0,
        d.window_start() != now,
    ensures
        !rate_exceeded(d.count(), elapsed_millis(d.window_start(), now), rate),
        limit_step(Some(d), now, rate, timeout_millis).1.count() == d.count() + 1,
{
    let time = elapsed_millis(d.window_start(), now);
    let c = d.count() as int;
    let q = rate.requests as int;
    let sec = rate.seconds as int;
    if !rate_exceeded(d.count(), time, rate) && time < 1000 {
        assert(c < u32::MAX) by (nonlinear_arith)
            requires
                c * 1000 * sec <= q * (time as int),
                0 <= time < 1000,
                sec > 0,
                0 <= c,
                q <= (u32::MAX as int) * sec,
        ;
    }
}

} // verus!
