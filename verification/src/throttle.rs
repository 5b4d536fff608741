//! Rate limiting of requests by IPv4 address.
//!
//! Each address has a count of the requests made since the start of its current
//! window. A request is limited while its address is in timeout: the timeout
//! starts when the address goes over the allowed request rate and lasts
//! `timeout_millis` from the start of its window. Windows last a second.
use vstd::prelude::*;

use std::collections::HashMap;

verus! {

broadcast use vstd::std_specs::hash::group_hash_axioms;

/// The requests of one address: how many, since when (milliseconds on the
/// server's clock), and whether the address is in timeout.
pub struct Requests {
    count: u32,
    last_request_time: u64,
    timeout: bool,
}

impl Requests {
    /// The number of requests in the current window.
    pub closed spec fn count(&self) -> u32 {
        self.count
    }

    /// The start of the current window.
    pub closed spec fn since(&self) -> u64 {
        self.last_request_time
    }

    /// Whether the address is in timeout.
    pub closed spec fn timed_out(&self) -> bool {
        self.timeout
    }

    /// A copy of the count and the window's start, out of timeout.
    pub fn clone(&self) -> (r: Requests)
        ensures
            r.count() == self.count(),
            r.since() == self.since(),
            !r.timed_out(),
    {
        Requests { count: self.count, last_request_time: self.last_request_time, timeout: false }
    }
}

/// A source address.
pub enum IpAddress {
    V4(u32),
    V6,
}

/// The request record of an address in a fresh state.
pub open spec fn fresh(r: Requests, now: u64) -> bool {
    r.count() == 0 && r.since() == now && !r.timed_out()
}

/// The record of `ip` that a request at `now` starts from: its record, or a
/// fresh one.
pub open spec fn count_before(m: Map<u32, Requests>, ip: u32) -> u32 {
    if m.contains_key(ip) {
        m[ip].count()
    } else {
        0
    }
}

/// The start of the window of `ip` that a request at `now` sees.
pub open spec fn since_before(m: Map<u32, Requests>, ip: u32, now: u64) -> u64 {
    if m.contains_key(ip) {
        m[ip].since()
    } else {
        now
    }
}

/// The milliseconds since the start of the window (none for a window that
/// starts later).
pub open spec fn elapsed(m: Map<u32, Requests>, ip: u32, now: u64) -> u64 {
    if now >= since_before(m, ip, now) {
        (now - since_before(m, ip, now)) as u64
    } else {
        0
    }
}

/// The decision on a request from `ip` at `now`, given whether it goes over
/// the allowed rate, and the record of `ip` afterwards:
/// - over the rate, within the timeout: limited, and the address is in timeout;
/// - over the rate, after the timeout: not limited, and a fresh window starts;
/// - else: not limited, and the request is counted, or a fresh window starts
///   once the window is a second old.
pub open spec fn step(
    m: Map<u32, Requests>,
    timeout_millis: u128,
    ip: u32,
    now: u64,
    over: bool,
    limited: bool,
    after: Requests,
) -> bool {
    let count = count_before(m, ip);
    let since = since_before(m, ip, now);
    let time = elapsed(m, ip, now);
    if over {
        if (time as u128) < timeout_millis {
            limited && after.count() == count && after.since() == since && after.timed_out()
        } else {
            !limited && fresh(after, now)
        }
    } else if time < 1000 {
        !limited && after.count() == count + 1 && after.since() == since && !after.timed_out()
    } else {
        !limited && fresh(after, now)
    }
}

/// Request records by IPv4 address, and the length of a timeout.
pub struct IpThrottler {
    requests_from: HashMap<u32, Requests>,
    timeout_millis: u128,
}

impl IpThrottler {
    /// The records by address.
    pub closed spec fn records(&self) -> Map<u32, Requests> {
        self.requests_from@
    }

    /// The length of a timeout, in milliseconds.
    pub closed spec fn timeout(&self) -> u128 {
        self.timeout_millis
    }

    /// A throttler with no records.
    pub fn new(timeout_millis: u128) -> (t: IpThrottler)
        ensures
            t.records() == Map::<u32, Requests>::empty(),
            t.timeout() == timeout_millis,
    {
        IpThrottler { requests_from: HashMap::new(), timeout_millis }
    }

    /// Whether the count of `ip` can grow by one request.
    pub fn can_count(&self, addr: &IpAddress) -> (r: bool)
        ensures
            r == (addr matches IpAddress::V4(ip) ==> count_before(self.records(), *ip) < u32::MAX),
    {
        match addr {
            IpAddress::V6 => true,
            IpAddress::V4(ip) => match self.requests_from.get(ip) {
                Some(r) => r.count < u32::MAX,
                None => true,
            },
        }
    }

    /// Whether a request from `addr` at `now` is limited. An IPv6 address is
    /// always limited. For an IPv4 address, `rate_exceeded(count, elapsed)`
    /// tells whether `count` requests in `elapsed` milliseconds go over the
    /// allowed rate; the decision and the new record are then as `step` says.
    pub fn is_limited<F: Fn(u32, u64) -> bool>(
        &mut self,
        addr: IpAddress,
        now: u64,
        rate_exceeded: F,
    ) -> (limited: bool)
        requires
            addr matches IpAddress::V4(ip) ==> count_before(old(self).records(), ip) < u32::MAX,
            forall|c: u32, t: u64| rate_exceeded.requires((c, t)),
        ensures
            final(self).timeout() == old(self).timeout(),
            addr is V6 ==> limited && final(self).records() == old(self).records(),
            addr matches IpAddress::V4(ip) ==> {
                let m = old(self).records();
                &&& final(self).records().dom() == m.dom().insert(ip)
                &&& forall|k: u32| k != ip && m.contains_key(k) ==> final(self).records()[k] == m[k]
                &&& exists|over: bool|
                    {
                        &&& #[trigger] rate_exceeded.ensures(
                            (count_before(m, ip), elapsed(m, ip, now)),
                            over,
                        )
                        &&& step(
                            m,
                            old(self).timeout(),
                            ip,
                            now,
                            over,
                            limited,
                            final(self).records()[ip],
                        )
                    }
            },
    {
        let ip = match addr {
            IpAddress::V6 => {
                return true;
            },
            IpAddress::V4(ip) => ip,
        };
        let ghost m = self.requests_from@;
        let requests = match self.requests_from.get(&ip) {
            Some(r) => r.clone(),
            None => Requests { count: 0, last_request_time: now, timeout: false },
        };
        let time: u64 = if now >= requests.last_request_time {
            now - requests.last_request_time
        } else {
            0
        };
        assert(requests.count == count_before(m, ip));
        assert(requests.last_request_time == since_before(m, ip, now));
        assert(time == elapsed(m, ip, now));
        let over = rate_exceeded(requests.count, time);
        let (limited, after) = if over {
            if (time as u128) < self.timeout_millis {
                (
                    true,
                    Requests {
                        count: requests.count,
                        last_request_time: requests.last_request_time,
                        timeout: true,
                    },
                )
            } else {
                (false, Requests { count: 0, last_request_time: now, timeout: false })
            }
        } else if time < 1000 {
            (
                false,
                Requests {
                    count: requests.count + 1,
                    last_request_time: requests.last_request_time,
                    timeout: false,
                },
            )
        } else {
            (false, Requests { count: 0, last_request_time: now, timeout: false })
        };
        assert(step(m, self.timeout_millis, ip, now, over, limited, after));
        self.requests_from.insert(ip, after);
        assert(self.requests_from@.dom() =~= m.dom().insert(ip));
        assert(self.requests_from@[ip] == after);
        assert(rate_exceeded.ensures((count_before(m, ip), elapsed(m, ip, now)), over));
        limited
    }
}

} // verus!
