//! The rate limiter: a request count per client address within a fixed
//! window, and the admission decision against a threshold.
//!
//! A threshold of zero switches limiting off. The window is fixed, not
//! sliding: a periodic reset puts every count back to zero and forgets no
//! client.

use vstd::hash_map::StringHashMap;
use vstd::prelude::*;

verus! {

/// Length of the counting window in seconds.
pub const WINDOW_SECS: u64 = 60;

/// The limiter as a mathematical value: the threshold and the count of each
/// client seen so far.
pub struct RateView {
    pub threshold: usize,
    pub counts: Map<Seq<char>, usize>,
}

impl RateView {
    /// A threshold of zero means that nothing is limited.
    pub open spec fn enabled(self) -> bool {
        self.threshold > 0
    }

    /// Requests counted for `ip` in the current window; zero for a client
    /// never seen.
    pub open spec fn count(self, ip: Seq<char>) -> usize {
        if self.counts.contains_key(ip) {
            self.counts[ip]
        } else {
            0
        }
    }

    /// The limiter once `ip` is known to it: a client not seen before gets a
    /// count of zero, a known one keeps its count.
    pub open spec fn register(self, ip: Seq<char>) -> RateView {
        RateView { threshold: self.threshold, counts: self.counts.insert(ip, self.count(ip)) }
    }

    /// The limiter after one more request of `ip` has been counted. A count
    /// that has reached the largest machine integer stays there.
    pub open spec fn bump(self, ip: Seq<char>) -> RateView {
        let next = if self.count(ip) < usize::MAX {
            (self.count(ip) + 1) as usize
        } else {
            self.count(ip)
        };
        RateView { threshold: self.threshold, counts: self.counts.insert(ip, next) }
    }

    /// Whether one more request of `ip` is still within the threshold.
    pub open spec fn within(self, ip: Seq<char>) -> bool {
        self.count(ip) + 1 <= self.threshold
    }

    /// The limiter after an admission decision for `ip`: untouched while
    /// limiting is off, one request further otherwise.
    pub open spec fn after_admission(self, ip: Seq<char>) -> RateView {
        if self.enabled() {
            self.bump(ip)
        } else {
            self
        }
    }

    /// Whether the admission decision for `ip` lets the request through.
    pub open spec fn admits(self, ip: Seq<char>) -> bool {
        !self.enabled() || self.within(ip)
    }

    /// The limiter at the start of a new window: the same clients, every
    /// count zero.
    pub open spec fn reset(self) -> RateView {
        RateView {
            threshold: self.threshold,
            counts: Map::new(|ip: Seq<char>| self.counts.contains_key(ip), |ip: Seq<char>| 0usize),
        }
    }

    /// The limiter after `n` admission decisions for `ip` in a row.
    pub open spec fn admit_times(self, ip: Seq<char>, n: nat) -> RateView
        decreases n,
    {
        if n == 0 {
            self
        } else {
            self.admit_times(ip, (n - 1) as nat).after_admission(ip)
        }
    }
}

/// Counting is exact up to the largest machine integer: after `n` admission
/// decisions for `ip` with limiting switched on, the count of `ip` has grown
/// by `n`, and nothing else about the limiter's rules has changed.
pub proof fn lemma_admit_times_counts(rates: RateView, ip: Seq<char>, n: nat)
    requires
        rates.enabled(),
    ensures
        rates.admit_times(ip, n).threshold == rates.threshold,
        rates.admit_times(ip, n).count(ip) == if rates.count(ip) + n <= usize::MAX {
            rates.count(ip) + n
        } else {
            usize::MAX as int
        },
        forall|other: Seq<char>|
            other != ip ==> rates.admit_times(ip, n).count(other) == rates.count(other),
    decreases n,
{
    if n > 0 {
        lemma_admit_times_counts(rates, ip, (n - 1) as nat);
    }
}

/// The fixed window: for a client whose count stands at zero and a threshold
/// `T > 0`, the first `T` admission decisions let the request through and
/// every later one turns it down. Here `n` decisions have been taken, and the
/// law speaks of the next one.
pub proof fn lemma_window_admits_threshold(rates: RateView, ip: Seq<char>, n: nat)
    requires
        rates.enabled(),
        rates.count(ip) == 0,
    ensures
        rates.admit_times(ip, n).admits(ip) <==> n < rates.threshold,
{
    lemma_admit_times_counts(rates, ip, n);
}

/// A reset opens a new window for every client: whatever was counted
/// before, all counts are zero afterwards, no client is forgotten, and the
/// next `T` admission decisions of any client let the request through again,
/// the one after them does not.
pub proof fn lemma_reset_opens_window(rates: RateView, ip: Seq<char>, n: nat)
    requires
        rates.enabled(),
    ensures
        rates.reset().threshold == rates.threshold,
        rates.reset().count(ip) == 0,
        rates.reset().counts.dom() =~= rates.counts.dom(),
        rates.reset().admit_times(ip, n).admits(ip) <==> n < rates.threshold,
{
    lemma_window_admits_threshold(rates.reset(), ip, n);
}

/// With a threshold of zero every request is admitted, however many came
/// before, and the limiter never changes.
pub proof fn lemma_disabled_admits_all(rates: RateView, ip: Seq<char>, n: nat)
    requires
        !rates.enabled(),
    ensures
        rates.admit_times(ip, n) == rates,
        rates.admit_times(ip, n).admits(ip),
    decreases n,
{
    if n > 0 {
        lemma_disabled_admits_all(rates, ip, (n - 1) as nat);
    }
}

/// Across a window boundary a client can get up to twice the threshold
/// through: `T` requests at the end of one window and `T` more right after
/// the reset.
pub proof fn lemma_burst_across_reset(rates: RateView, ip: Seq<char>, before: nat, after: nat)
    requires
        rates.enabled(),
        rates.count(ip) == 0,
        before < rates.threshold,
        after < rates.threshold,
    ensures
        rates.admit_times(ip, before).admits(ip),
        rates.admit_times(ip, (before + 1) as nat).reset().admit_times(ip, after).admits(ip),
{
    lemma_window_admits_threshold(rates, ip, before);
    lemma_admit_times_counts(rates, ip, (before + 1) as nat);
    lemma_reset_opens_window(rates.admit_times(ip, (before + 1) as nat), ip, after);
}

/// No client is ever forgotten, and the threshold never changes: whatever
/// the limiter is asked to do, every client that had a count still has one.
pub proof fn lemma_clients_are_kept(rates: RateView, ip: Seq<char>, known: Seq<char>)
    requires
        rates.counts.contains_key(known),
    ensures
        rates.register(ip).counts.contains_key(known),
        rates.bump(ip).counts.contains_key(known),
        rates.after_admission(ip).counts.contains_key(known),
        rates.reset().counts.contains_key(known),
        rates.register(ip).threshold == rates.threshold,
        rates.after_admission(ip).threshold == rates.threshold,
        rates.reset().threshold == rates.threshold,
        rates.register(ip).count(known) == rates.count(known),
{
}

/// Request counts per client address, with the threshold they are held to.
pub struct RateLimiter {
    max_requests_per_minute: usize,
    counts: StringHashMap<usize>,
    clients: Vec<String>,
}

impl View for RateLimiter {
    type V = RateView;

    closed spec fn view(&self) -> RateView {
        RateView { threshold: self.max_requests_per_minute, counts: self.counts@ }
    }
}

impl RateLimiter {
    /// The list of clients names exactly the clients that have a count.
    pub closed spec fn wf(&self) -> bool {
        &&& forall|i: int|
            0 <= i < self.clients.len() ==> self.counts@.contains_key(#[trigger] self.clients[i]@)
        &&& forall|ip: Seq<char>| #[trigger]
            self.counts@.contains_key(ip) ==> exists|i: int|
                0 <= i < self.clients.len() && #[trigger] self.clients[i]@ == ip
    }

    /// A limiter that has seen no client. `max_requests_per_minute` is the
    /// threshold per client and window; zero switches limiting off.
    pub fn new(max_requests_per_minute: usize) -> (limiter: Self)
        ensures
            limiter.wf(),
            limiter@ == (RateView {
                threshold: max_requests_per_minute,
                counts: Map::<Seq<char>, usize>::empty(),
            }),
    {
        RateLimiter { max_requests_per_minute, counts: StringHashMap::new(), clients: Vec::new() }
    }

    /// The threshold per client and window.
    pub fn threshold(&self) -> (threshold: usize)
        ensures
            threshold == self@.threshold,
    {
        self.max_requests_per_minute
    }

    /// Whether limiting is switched on.
    pub fn is_enabled(&self) -> (enabled: bool)
        ensures
            enabled == self@.enabled(),
    {
        self.max_requests_per_minute > 0
    }

    /// The count held for `client_ip`, or `None` for a client never seen.
    pub fn count(&self, client_ip: &String) -> (count: Option<usize>)
        ensures
            count == if self@.counts.contains_key(client_ip@) {
                Some(self@.counts[client_ip@])
            } else {
                None
            },
    {
        match self.counts.get(client_ip.as_str()) {
            Some(count) => Some(*count),
            None => None,
        }
    }

    /// Stores `count` for `client_ip`, listing the client if it is new.
    fn store(&mut self, client_ip: &String, count: usize)
        requires
            old(self).wf(),
        ensures
            final(self).wf(),
            final(self)@ == (RateView {
                threshold: old(self)@.threshold,
                counts: old(self)@.counts.insert(client_ip@, count),
            }),
    {
        let known = self.counts.contains_key(client_ip.as_str());
        self.counts.insert(client_ip.clone(), count);
        if !known {
            self.clients.push(client_ip.clone());
        }
        proof {
            let last = self.clients.len() - 1;
            assert forall|i: int| 0 <= i < self.clients.len() implies self.counts@.contains_key(
                #[trigger] self.clients[i]@,
            ) by {
                if i < old(self).clients.len() {
                    assert(self.clients[i] == old(self).clients[i]);
                }
            }
            assert forall|ip: Seq<char>| #[trigger] self.counts@.contains_key(ip) implies exists|
                i: int,
            |
                0 <= i < self.clients.len() && #[trigger] self.clients[i]@ == ip by {
                if old(self).counts@.contains_key(ip) {
                    let i = choose|i: int|
                        0 <= i < old(self).clients.len() && #[trigger] old(self).clients[i]@ == ip;
                    assert(self.clients[i]@ == ip);
                } else {
                    assert(ip == client_ip@);
                    assert(self.clients[last]@ == ip);
                }
            }
        }
    }

    /// Makes `client_ip` known to the limiter: a client not seen before gets
    /// a count of zero, a known one keeps its count.
    pub fn register(&mut self, client_ip: &String)
        requires
            old(self).wf(),
        ensures
            final(self).wf(),
            final(self)@ == old(self)@.register(client_ip@),
    {
        if !self.counts.contains_key(client_ip.as_str()) {
            self.store(client_ip, 0);
        } else {
            assert(self@.counts =~= old(self)@.register(client_ip@).counts);
        }
    }

    /// Counts one more request of `client_ip` and says whether the new count
    /// is within the threshold. A client not seen before is counted from
    /// zero.
    fn count_request(&mut self, client_ip: &String) -> (within: bool)
        requires
            old(self).wf(),
        ensures
            final(self).wf(),
            final(self)@ == old(self)@.bump(client_ip@),
            within == old(self)@.within(client_ip@),
    {
        let rate = match self.counts.get(client_ip.as_str()) {
            Some(rate) => *rate,
            None => 0,
        };
        let within = rate < self.max_requests_per_minute;
        let next = if rate < usize::MAX {
            rate + 1
        } else {
            rate
        };
        self.store(client_ip, next);
        within
    }

    /// The admission decision for one request of `client_ip`. With a
    /// threshold of zero limiting is off: the request is admitted and nothing
    /// is counted or changed, and this is settled before anything else is
    /// looked at. Otherwise the request is counted, a client not seen before
    /// from zero, and admitted if the new count does not exceed the
    /// threshold.
    pub fn update_rate_and_check(&mut self, client_ip: &String) -> (admitted: bool)
        requires
            old(self).wf(),
        ensures
            final(self).wf(),
            final(self)@ == old(self)@.after_admission(client_ip@),
            admitted == old(self)@.admits(client_ip@),
    {
        if self.max_requests_per_minute == 0 {
            true
        } else {
            self.count_request(client_ip)
        }
    }

    /// Starts a new window: every client known to the limiter is back at a
    /// count of zero, and none is forgotten. The caller runs this once every
    /// [`WINDOW_SECS`] seconds.
    pub fn reset_rates_with_fixed_window(&mut self)
        requires
            old(self).wf(),
        ensures
            final(self).wf(),
            final(self)@ == old(self)@.reset(),
    {
        let mut i: usize = 0;
        while i < self.clients.len()
            invariant
                i <= self.clients.len(),
                self.clients == old(self).clients,
                self.max_requests_per_minute == old(self).max_requests_per_minute,
                self.counts@.dom() == old(self).counts@.dom(),
                old(self).wf(),
                forall|j: int| 0 <= j < i ==> self.counts@[#[trigger] self.clients[j]@] == 0,
            decreases self.clients.len() - i,
        {
            let ghost before = self.counts@;
            let client = self.clients[i].clone();
            assert(before.contains_key(client@));
            self.counts.insert(client, 0);
            assert(self.counts@.dom() =~= before.dom());
            i = i + 1;
        }
        proof {
            assert forall|ip: Seq<char>| #[trigger] self.counts@.contains_key(ip) implies self.counts@[ip]
                == 0 by {
                assert(old(self).counts@.contains_key(ip));
                let j = choose|j: int|
                    0 <= j < old(self).clients.len() && #[trigger] old(self).clients[j]@ == ip;
                assert(self.counts@[self.clients[j]@] == 0);
            }
            assert(self@.counts =~= old(self)@.reset().counts);
        }
    }
}

} // verus!
