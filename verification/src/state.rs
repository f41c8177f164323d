//! The proxy's state as it is set up at start: the configuration, the
//! registry of upstreams and the rate limiter.
//!
//! The registry and the rate limiter are guarded independently while the
//! proxy runs, so the state can be taken apart into the pieces that the
//! health checker, the window reset and the connection handlers share.

use crate::health::HealthChecker;
use crate::health::HealthPhase;
use crate::health::HealthView;
use crate::rate::RateLimiter;
use crate::rate::RateView;
use crate::upstream::Upstream;
use crate::upstream::UpstreamView;
use vstd::prelude::*;

verus! {

/// The proxy's state as a mathematical value.
pub struct ProxyStateView {
    pub active_health_check_interval: usize,
    pub active_health_check_path: Seq<char>,
    pub max_requests_per_minute: usize,
    pub upstreams: Seq<Upstream>,
    pub rates: RateView,
}

/// Configuration and dynamic state of the proxy.
pub struct ProxyState {
    /// Seconds between two health-check cycles.
    active_health_check_interval: usize,
    /// Path that a health-check probe asks for.
    active_health_check_path: String,
    /// Requests that one client may make per window; zero for no limit.
    max_requests_per_minute: usize,
    /// Addresses and liveness of the servers proxied to.
    upstreams: Vec<Upstream>,
    /// Requests that each client has made in the current window.
    rates: RateLimiter,
}

impl View for ProxyState {
    type V = ProxyStateView;

    closed spec fn view(&self) -> ProxyStateView {
        ProxyStateView {
            active_health_check_interval: self.active_health_check_interval,
            active_health_check_path: self.active_health_check_path@,
            max_requests_per_minute: self.max_requests_per_minute,
            upstreams: self.upstreams@,
            rates: self.rates@,
        }
    }
}

impl ProxyState {
    /// There is at least one upstream, and the rate limiter is sound and
    /// holds the configured threshold.
    pub closed spec fn wf(&self) -> bool {
        &&& self.upstreams.len() > 0
        &&& self.rates.wf()
        &&& self.rates@.threshold == self.max_requests_per_minute
    }

    /// Sets the proxy up from its configuration: every upstream alive, no
    /// client seen. A proxy needs at least one upstream: without one there is
    /// no state, and `None` is returned.
    pub fn new(
        upstream: Vec<String>,
        active_health_check_interval: usize,
        active_health_check_path: String,
        max_requests_per_minute: usize,
    ) -> (state: Option<Self>)
        ensures
            state is None <==> upstream.len() == 0,
            state matches Some(s) ==> {
                &&& s.wf()
                &&& s@.active_health_check_interval == active_health_check_interval
                &&& s@.active_health_check_path == active_health_check_path@
                &&& s@.max_requests_per_minute == max_requests_per_minute
                &&& s@.rates == (RateView {
                    threshold: max_requests_per_minute,
                    counts: Map::<Seq<char>, usize>::empty(),
                })
                &&& s@.upstreams.len() == upstream.len()
                &&& forall|i: int|
                    0 <= i < upstream.len() ==> (#[trigger] s@.upstreams[i])@ == (UpstreamView {
                        address: upstream[i]@,
                        alive: true,
                    })
            },
    {
        if upstream.len() < 1 {
            return None;
        }
        Some(
            ProxyState {
                upstreams: Upstream::new_vec(upstream),
                rates: RateLimiter::new(max_requests_per_minute),
                active_health_check_interval,
                active_health_check_path,
                max_requests_per_minute,
            },
        )
    }

    /// Whether the rate limiter is switched on, and so whether the window
    /// reset has to run at all.
    pub fn limits_rates(&self) -> (limited: bool)
        ensures
            limited == (self@.max_requests_per_minute > 0),
    {
        self.max_requests_per_minute > 0
    }

    /// The registry of upstreams.
    pub fn upstreams(&self) -> (upstreams: &Vec<Upstream>)
        ensures
            upstreams@ == self@.upstreams,
    {
        &self.upstreams
    }

    /// The rate limiter.
    pub fn rates(&self) -> (rates: &RateLimiter)
        ensures
            rates@ == self@.rates,
            self.wf() ==> rates.wf(),
    {
        &self.rates
    }

    /// Takes the state apart into the three pieces that run on their own: the
    /// registry, the rate limiter, and a health checker that is about to
    /// pause for the configured interval.
    pub fn into_parts(self) -> (parts: (Vec<Upstream>, RateLimiter, HealthChecker))
        requires
            self.wf(),
        ensures
            parts.0@ == self@.upstreams,
            parts.0.len() > 0,
            parts.1@ == self@.rates,
            parts.1.wf(),
            parts.1@.threshold == self@.max_requests_per_minute,
            parts.2@ == (HealthView {
                interval: self@.active_health_check_interval,
                path: self@.active_health_check_path,
                phase: HealthPhase::Sleeping,
            }),
    {
        let checker = HealthChecker::new(
            self.active_health_check_interval,
            self.active_health_check_path,
        );
        (self.upstreams, self.rates, checker)
    }
}

} // verus!
