//! The active health checker: a cycle of probes, one per upstream in
//! registration order, that sets each liveness flag from what its probe
//! found, followed by a pause.
//!
//! The caller owns the sockets and the clock. A probe is one fresh connection
//! to the upstream, one `GET` of the probe path, and one response read; the
//! caller reports how far it got.

use crate::upstream::lemma_set_flag;
use crate::upstream::mark;
use crate::upstream::same_addresses;
use crate::upstream::set_flag;
use crate::upstream::Upstream;
use crate::upstream::UpstreamView;
use vstd::prelude::*;

verus! {

/// The one status that shows an upstream to be healthy.
pub const HEALTHY_STATUS: u16 = 200;

/// The method of a probe request.
pub const PROBE_METHOD: &'static str = "GET";

/// How one probe of an upstream ended.
#[derive(Clone, Copy, Debug, PartialEq, Eq)]
pub enum ProbeOutcome {
    /// No connection to the upstream could be opened.
    ConnectFailed,
    /// The probe request could not be written.
    WriteFailed,
    /// No well-formed response could be read.
    ReadFailed,
    /// A well-formed response with this status was read.
    Status(u16),
}

impl ProbeOutcome {
    /// Only a response with status 200 shows the upstream to be alive.
    pub open spec fn healthy(self) -> bool {
        self == ProbeOutcome::Status(HEALTHY_STATUS)
    }

    /// Whether the probe shows the upstream to be alive.
    pub fn is_healthy(&self) -> (healthy: bool)
        ensures
            healthy == self.healthy(),
    {
        match self {
            ProbeOutcome::Status(status) => *status == HEALTHY_STATUS,
            _ => false,
        }
    }
}

/// Where the health checker stands.
#[derive(Clone, Copy, Debug, PartialEq, Eq)]
pub enum HealthPhase {
    /// Between two cycles.
    Sleeping,
    /// The upstream at this position is being probed.
    Probing(usize),
}

/// What the caller reports back.
#[derive(Clone, Copy, Debug, PartialEq, Eq)]
pub enum HealthEvent {
    /// The pause is over.
    Woke,
    /// The probe asked for has ended.
    Probed(ProbeOutcome),
}

/// What the caller is to do next.
#[derive(Debug, PartialEq, Eq)]
pub enum HealthAction {
    /// Pause for this many seconds.
    Sleep(usize),
    /// Probe the upstream at position `upstream`: connect to `host`, send a
    /// `GET` of `path` with `host` as its `Host` header, read the response.
    Probe { upstream: usize, host: String, path: String },
}

/// An action without the strings spelled out as machine values.
pub enum HealthActionView {
    Sleep(usize),
    Probe { upstream: usize, host: Seq<char>, path: Seq<char> },
}

impl View for HealthAction {
    type V = HealthActionView;

    open spec fn view(&self) -> HealthActionView {
        match *self {
            HealthAction::Sleep(secs) => HealthActionView::Sleep(secs),
            HealthAction::Probe { upstream, host, path } => HealthActionView::Probe {
                upstream,
                host: host@,
                path: path@,
            },
        }
    }
}

/// What the health checker is, mathematically: its configuration and phase.
pub struct HealthView {
    pub interval: usize,
    pub path: Seq<char>,
    pub phase: HealthPhase,
}

/// The result of one step: the next phase, the registry as the step left it,
/// and the action asked for.
pub struct HealthStep {
    pub phase: HealthPhase,
    pub upstreams: Seq<Upstream>,
    pub action: HealthActionView,
}

impl HealthView {
    /// Turning to the upstream at position `next`: it is probed if there is
    /// one; past the last upstream the cycle is over and the checker pauses.
    pub open spec fn turn_to(self, upstreams: Seq<Upstream>, next: int) -> HealthStep {
        if 0 <= next < upstreams.len() {
            HealthStep {
                phase: HealthPhase::Probing(next as usize),
                upstreams,
                action: HealthActionView::Probe {
                    upstream: next as usize,
                    host: upstreams[next]@.address,
                    path: self.path,
                },
            }
        } else {
            HealthStep {
                phase: HealthPhase::Sleeping,
                upstreams,
                action: HealthActionView::Sleep(self.interval),
            }
        }
    }

    /// The transition function of the health checker. Waking starts a cycle
    /// at the first upstream. A probe that has ended sets the flag of the
    /// upstream probed and turns to the next one. An event that the phase
    /// does not wait for changes nothing and has the pending action asked
    /// for again.
    pub open spec fn step(self, upstreams: Seq<Upstream>, event: HealthEvent) -> HealthStep {
        match (self.phase, event) {
            (HealthPhase::Sleeping, HealthEvent::Woke) => self.turn_to(upstreams, 0),
            (HealthPhase::Sleeping, HealthEvent::Probed(_)) => self.turn_to(
                upstreams,
                upstreams.len() as int,
            ),
            (HealthPhase::Probing(i), HealthEvent::Probed(outcome)) => self.turn_to(
                set_flag(upstreams, i as int, outcome.healthy()),
                i + 1,
            ),
            (HealthPhase::Probing(i), HealthEvent::Woke) => self.turn_to(upstreams, i as int),
        }
    }
}

impl HealthView {
    /// The checker in another phase.
    pub open spec fn at(self, phase: HealthPhase) -> HealthView {
        HealthView { interval: self.interval, path: self.path, phase }
    }

    /// Where a cycle stands once the checker has woken and the first `k`
    /// probes have ended with the first `k` of `outcomes`.
    pub open spec fn after_probes(
        self,
        upstreams: Seq<Upstream>,
        outcomes: Seq<ProbeOutcome>,
        k: nat,
    ) -> HealthStep
        decreases k,
    {
        if k == 0 {
            self.step(upstreams, HealthEvent::Woke)
        } else {
            let so_far = self.after_probes(upstreams, outcomes, (k - 1) as nat);
            self.at(so_far.phase).step(so_far.upstreams, HealthEvent::Probed(outcomes[k - 1]))
        }
    }
}

/// The registry in which every upstream carries the verdict of its own
/// probe.
pub open spec fn probed(upstreams: Seq<Upstream>, outcomes: Seq<ProbeOutcome>) -> Seq<Upstream> {
    Seq::new(upstreams.len(), |i: int| upstreams[i].flagged(outcomes[i].healthy()))
}

/// Part of the way through a cycle, the upstreams probed so far carry their
/// verdicts, the others are untouched, and the next one in registration order
/// is being probed.
pub proof fn lemma_cycle_progress(
    checker: HealthView,
    upstreams: Seq<Upstream>,
    outcomes: Seq<ProbeOutcome>,
    k: nat,
)
    requires
        checker.phase == HealthPhase::Sleeping,
        outcomes.len() == upstreams.len(),
        upstreams.len() <= usize::MAX,
        k <= upstreams.len(),
    ensures
        checker.after_probes(upstreams, outcomes, k).phase == if k < upstreams.len() {
            HealthPhase::Probing(k as usize)
        } else {
            HealthPhase::Sleeping
        },
        checker.after_probes(upstreams, outcomes, k).upstreams.len() == upstreams.len(),
        forall|i: int|
            0 <= i < upstreams.len() ==> #[trigger] checker.after_probes(
                upstreams,
                outcomes,
                k,
            ).upstreams[i] == if i < k {
                upstreams[i].flagged(outcomes[i].healthy())
            } else {
                upstreams[i]
            },
        checker.after_probes(upstreams, outcomes, k).action == if k < upstreams.len() {
            HealthActionView::Probe {
                upstream: k as usize,
                host: upstreams[k as int]@.address,
                path: checker.path,
            }
        } else {
            HealthActionView::Sleep(checker.interval)
        },
    decreases k,
{
    if k > 0 {
        lemma_cycle_progress(checker, upstreams, outcomes, (k - 1) as nat);
        let so_far = checker.after_probes(upstreams, outcomes, (k - 1) as nat);
        lemma_set_flag(so_far.upstreams, k - 1, outcomes[k - 1].healthy());
        if k < upstreams.len() {
            upstreams[k as int].lemma_flagged(true);
        }
    }
}

/// After a full cycle every upstream is alive exactly if its own probe read a
/// response with status 200, and dead if the probe failed to connect, to
/// write, to read, or read any other status. The flags that stood before the
/// cycle play no part, the addresses are what they were, and the checker is
/// back to pausing for its interval.
pub proof fn lemma_cycle_converges(
    checker: HealthView,
    upstreams: Seq<Upstream>,
    outcomes: Seq<ProbeOutcome>,
)
    requires
        checker.phase == HealthPhase::Sleeping,
        outcomes.len() == upstreams.len(),
        upstreams.len() <= usize::MAX,
    ensures
        checker.after_probes(upstreams, outcomes, upstreams.len()) == (HealthStep {
            phase: HealthPhase::Sleeping,
            upstreams: probed(upstreams, outcomes),
            action: HealthActionView::Sleep(checker.interval),
        }),
        forall|i: int|
            0 <= i < upstreams.len() ==> (#[trigger] probed(upstreams, outcomes)[i])@ == (
            UpstreamView {
                address: upstreams[i]@.address,
                alive: outcomes[i] == ProbeOutcome::Status(HEALTHY_STATUS),
            }),
{
    lemma_cycle_progress(checker, upstreams, outcomes, upstreams.len());
    assert(checker.after_probes(upstreams, outcomes, upstreams.len()).upstreams =~= probed(
        upstreams,
        outcomes,
    ));
    assert forall|i: int| 0 <= i < upstreams.len() implies (#[trigger] probed(
        upstreams,
        outcomes,
    )[i])@ == (UpstreamView {
        address: upstreams[i]@.address,
        alive: outcomes[i] == ProbeOutcome::Status(HEALTHY_STATUS),
    }) by {
        upstreams[i].lemma_flagged(outcomes[i].healthy());
    }
}

/// Probing is idempotent: a second cycle with the same outcomes changes
/// nothing, and a cycle wipes out whatever an earlier cycle found.
pub proof fn lemma_probed_idempotent(
    upstreams: Seq<Upstream>,
    earlier: Seq<ProbeOutcome>,
    outcomes: Seq<ProbeOutcome>,
)
    requires
        earlier.len() == upstreams.len(),
        outcomes.len() == upstreams.len(),
    ensures
        probed(probed(upstreams, earlier), outcomes) == probed(upstreams, outcomes),
{
    assert forall|i: int| 0 <= i < upstreams.len() implies probed(
        probed(upstreams, earlier),
        outcomes,
    )[i] == probed(upstreams, outcomes)[i] by {
        upstreams[i].lemma_flagged(earlier[i].healthy());
    }
    assert(probed(probed(upstreams, earlier), outcomes) =~= probed(upstreams, outcomes));
}

/// The active health checker.
pub struct HealthChecker {
    active_health_check_interval: usize,
    active_health_check_path: String,
    phase: HealthPhase,
}

impl View for HealthChecker {
    type V = HealthView;

    closed spec fn view(&self) -> HealthView {
        HealthView {
            interval: self.active_health_check_interval,
            path: self.active_health_check_path@,
            phase: self.phase,
        }
    }
}

impl HealthChecker {
    /// A checker that probes `active_health_check_path` and pauses for
    /// `active_health_check_interval` seconds between cycles. It starts out
    /// pausing: the caller sleeps for the interval first.
    pub fn new(active_health_check_interval: usize, active_health_check_path: String) -> (checker:
        Self)
        ensures
            checker@ == (HealthView {
                interval: active_health_check_interval,
                path: active_health_check_path@,
                phase: HealthPhase::Sleeping,
            }),
    {
        HealthChecker {
            active_health_check_interval,
            active_health_check_path,
            phase: HealthPhase::Sleeping,
        }
    }

    /// Seconds between two cycles.
    pub fn interval(&self) -> (interval: usize)
        ensures
            interval == self@.interval,
    {
        self.active_health_check_interval
    }

    /// The path that a probe asks for.
    pub fn path(&self) -> (path: &String)
        ensures
            path@ == self@.path,
    {
        &self.active_health_check_path
    }

    /// Where the checker stands.
    pub fn phase(&self) -> (phase: HealthPhase)
        ensures
            phase == self@.phase,
    {
        self.phase
    }

    /// Turns to the upstream at position `next`, or to the pause.
    fn turn_to(&mut self, upstreams: &Vec<Upstream>, next: usize) -> (action: HealthAction)
        ensures
            final(self)@.interval == old(self)@.interval,
            final(self)@.path == old(self)@.path,
            (HealthStep { phase: final(self)@.phase, upstreams: upstreams@, action: action@ })
                == old(self)@.turn_to(upstreams@, next as int),
    {
        if next < upstreams.len() {
            self.phase = HealthPhase::Probing(next);
            HealthAction::Probe {
                upstream: next,
                host: upstreams[next].get_addr().clone(),
                path: self.active_health_check_path.clone(),
            }
        } else {
            self.phase = HealthPhase::Sleeping;
            HealthAction::Sleep(self.active_health_check_interval)
        }
    }
}

/// Takes one event of the health checker and says what to do next. The
/// outcome of a probe is written into the registry: the upstream probed is
/// alive exactly if it answered with status 200, whatever its flag was
/// before. No other flag and no address changes.
pub fn active_health_check(
    checker: &mut HealthChecker,
    upstreams: &mut Vec<Upstream>,
    event: HealthEvent,
) -> (action: HealthAction)
    ensures
        final(checker)@.interval == old(checker)@.interval,
        final(checker)@.path == old(checker)@.path,
        (HealthStep {
            phase: final(checker)@.phase,
            upstreams: final(upstreams)@,
            action: action@,
        }) == old(checker)@.step(old(upstreams)@, event),
        same_addresses(old(upstreams)@, final(upstreams)@),
{
    proof {
        if let (HealthPhase::Probing(i), HealthEvent::Probed(outcome)) = (checker.phase, event) {
            lemma_set_flag(upstreams@, i as int, outcome.healthy());
        }
    }
    match (checker.phase, event) {
        (HealthPhase::Sleeping, HealthEvent::Woke) => checker.turn_to(upstreams, 0),
        (HealthPhase::Sleeping, HealthEvent::Probed(_)) => {
            let end = upstreams.len();
            checker.turn_to(upstreams, end)
        },
        (HealthPhase::Probing(i), HealthEvent::Probed(outcome)) => {
            mark(upstreams, i, outcome.is_healthy());
            if i < upstreams.len() {
                checker.turn_to(upstreams, i + 1)
            } else {
                let end = upstreams.len();
                checker.turn_to(upstreams, end)
            }
        },
        (HealthPhase::Probing(i), HealthEvent::Woke) => checker.turn_to(upstreams, i),
    }
}

} // verus!
