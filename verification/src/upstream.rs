//! The upstream registry: a fixed list of backend addresses, each with a
//! liveness flag, and the selection of a live upstream for a new client.
//!
//! The registry is an ordinary `Vec<Upstream>`. Its length and addresses never
//! change after start-up; only the liveness flags flip.

use crate::random::draw_below;
use rand::rngs::StdRng;
use vstd::prelude::*;

verus! {

/// What an upstream is, mathematically: its address and whether it is
/// currently considered reachable.
pub struct UpstreamView {
    pub address: Seq<char>,
    pub alive: bool,
}

/// A backend server the proxy forwards to.
pub struct Upstream {
    address: String,
    alive: bool,
}

impl View for Upstream {
    type V = UpstreamView;

    closed spec fn view(&self) -> UpstreamView {
        UpstreamView { address: self.address@, alive: self.alive }
    }
}

/// How many of the upstreams are flagged alive.
pub open spec fn live_count(upstreams: Seq<Upstream>) -> nat
    decreases upstreams.len(),
{
    if upstreams.len() == 0 {
        0
    } else {
        live_count(upstreams.drop_last()) + if upstreams.last()@.alive {
            1nat
        } else {
            0nat
        }
    }
}

/// `i` is the position of the `k`-th live upstream, counting from zero in
/// registration order.
pub open spec fn is_kth_live(upstreams: Seq<Upstream>, k: nat, i: int) -> bool {
    &&& 0 <= i < upstreams.len()
    &&& upstreams[i]@.alive
    &&& live_count(upstreams.take(i)) == k
}

/// The two registries list the same addresses in the same order.
pub open spec fn same_addresses(a: Seq<Upstream>, b: Seq<Upstream>) -> bool {
    &&& a.len() == b.len()
    &&& forall|i: int| 0 <= i < a.len() ==> (#[trigger] a[i])@.address == b[i]@.address
}

/// The registry with the flag of upstream `i` set to `alive` and nothing else
/// touched. A position past the end changes nothing.
pub open spec fn set_flag(upstreams: Seq<Upstream>, i: int, alive: bool) -> Seq<Upstream> {
    if 0 <= i < upstreams.len() {
        upstreams.update(i, upstreams[i].flagged(alive))
    } else {
        upstreams
    }
}

/// The registry once a failed connection attempt, if there was one, has been
/// taken note of: the candidate that failed is marked dead.
pub open spec fn after_failure(upstreams: Seq<Upstream>, failed: Option<usize>) -> Seq<Upstream> {
    match failed {
        Some(f) => set_flag(upstreams, f as int, false),
        None => upstreams,
    }
}

/// Counting one more upstream adds one exactly when that upstream is alive.
pub proof fn lemma_live_count_step(upstreams: Seq<Upstream>, i: int)
    requires
        0 <= i < upstreams.len(),
    ensures
        live_count(upstreams.take(i + 1)) == live_count(upstreams.take(i)) + if upstreams[i]@.alive {
            1nat
        } else {
            0nat
        },
{
    assert(upstreams.take(i + 1).drop_last() =~= upstreams.take(i));
}

/// A longer prefix never holds fewer live upstreams.
pub proof fn lemma_live_count_prefix(upstreams: Seq<Upstream>, i: int, j: int)
    requires
        0 <= i <= j <= upstreams.len(),
    ensures
        live_count(upstreams.take(i)) <= live_count(upstreams.take(j)) <= live_count(upstreams),
        live_count(upstreams.take(j)) <= j,
    decreases upstreams.len() - i, upstreams.len() - j,
{
    assert(upstreams.take(upstreams.len() as int) =~= upstreams);
    if j < upstreams.len() {
        lemma_live_count_step(upstreams, j);
        lemma_live_count_prefix(upstreams, i, j + 1);
        lemma_live_count_prefix(upstreams, j, j + 1);
    }
    if i < j {
        lemma_live_count_step(upstreams, i);
        lemma_live_count_prefix(upstreams, i + 1, j);
    } else if i == 0 {
        assert(upstreams.take(0).len() == 0);
    } else {
        lemma_live_count_bound(upstreams.take(i));
    }
}

/// There are never more live upstreams than upstreams.
pub proof fn lemma_live_count_bound(upstreams: Seq<Upstream>)
    ensures
        live_count(upstreams) <= upstreams.len(),
    decreases upstreams.len(),
{
    if upstreams.len() > 0 {
        lemma_live_count_bound(upstreams.drop_last());
    }
}

/// The count is zero exactly when every upstream is flagged dead.
pub proof fn lemma_live_count_zero(upstreams: Seq<Upstream>)
    ensures
        live_count(upstreams) == 0 <==> forall|i: int|
            0 <= i < upstreams.len() ==> !(#[trigger] upstreams[i])@.alive,
    decreases upstreams.len(),
{
    if upstreams.len() > 0 {
        let front = upstreams.drop_last();
        lemma_live_count_zero(front);
        if live_count(upstreams) == 0 {
            assert forall|i: int| 0 <= i < upstreams.len() implies !(#[trigger] upstreams[i])@.alive by {
                if i < front.len() {
                    assert(front[i] == upstreams[i]);
                }
            }
        } else if !upstreams.last()@.alive {
            let i = choose|i: int| 0 <= i < front.len() && (#[trigger] front[i])@.alive;
            assert(upstreams[i]@.alive);
        }
    }
}

/// Setting a flag keeps every address, and moves the live count by exactly
/// what the flag changed: one down when a live upstream is marked dead, one up
/// when a dead one is marked alive, nothing otherwise.
pub proof fn lemma_set_flag(upstreams: Seq<Upstream>, i: int, alive: bool)
    ensures
        same_addresses(upstreams, set_flag(upstreams, i, alive)),
        0 <= i < upstreams.len() ==> set_flag(upstreams, i, alive)[i]@.alive == alive,
        forall|j: int|
            0 <= j < upstreams.len() && j != i ==> #[trigger] set_flag(upstreams, i, alive)[j]
                == upstreams[j],
        0 <= i < upstreams.len() ==> live_count(set_flag(upstreams, i, alive)) + (if upstreams[i]@.alive {
            1int
        } else {
            0int
        }) == live_count(upstreams) + (if alive {
            1int
        } else {
            0int
        }),
    decreases upstreams.len(),
{
    let after = set_flag(upstreams, i, alive);
    if 0 <= i < upstreams.len() {
        upstreams[i].lemma_flagged(alive);
        let b = upstreams.drop_last();
        let a = after.drop_last();
        if i == upstreams.len() - 1 {
            assert(a =~= b);
        } else {
            assert(a =~= set_flag(b, i, alive));
            lemma_set_flag(b, i, alive);
        }
    }
}

/// The `k`-th live upstream, where there is one, is unique, and there is one
/// exactly for `k` below the live count: a uniform draw of `k` below the live
/// count is a uniform choice among the live upstreams.
pub proof fn lemma_kth_live_unique(upstreams: Seq<Upstream>, k: nat, i: int, j: int)
    requires
        is_kth_live(upstreams, k, i),
        is_kth_live(upstreams, k, j),
    ensures
        i == j,
        k < live_count(upstreams),
{
    lemma_live_count_step(upstreams, i);
    lemma_live_count_prefix(upstreams, i + 1, upstreams.len() as int);
    if i < j {
        lemma_live_count_prefix(upstreams, i + 1, j);
    } else if j < i {
        lemma_live_count_step(upstreams, j);
        lemma_live_count_prefix(upstreams, j + 1, i);
    }
}

/// Every live upstream is the `k`-th live one for the `k` that counts the
/// live upstreams before it, so no live upstream is out of a draw's reach.
pub proof fn lemma_live_has_rank(upstreams: Seq<Upstream>, i: int)
    requires
        0 <= i < upstreams.len(),
        upstreams[i]@.alive,
    ensures
        is_kth_live(upstreams, live_count(upstreams.take(i)), i),
        live_count(upstreams.take(i)) < live_count(upstreams),
{
    lemma_kth_live_unique(upstreams, live_count(upstreams.take(i)), i, i);
}

impl Upstream {
    /// This upstream with its liveness flag set to `alive`.
    pub closed spec fn flagged(self, alive: bool) -> Upstream {
        Upstream { address: self.address, alive }
    }

    /// Setting the flag keeps the address, and setting it to what it already
    /// is changes nothing.
    pub proof fn lemma_flagged(self, alive: bool)
        ensures
            self.flagged(alive)@ == (UpstreamView { address: self@.address, alive }),
            self@.alive == alive ==> self.flagged(alive) == self,
            forall|again: bool| self.flagged(alive).flagged(again) == self.flagged(again),
    {
    }

    /// A new upstream starts out alive.
    pub fn new(address: String) -> (upstream: Self)
        ensures
            upstream@ == (UpstreamView { address: address@, alive: true }),
    {
        Upstream { address, alive: true }
    }

    /// One upstream per address, in the order given, all alive.
    pub fn new_vec(addresses: Vec<String>) -> (upstreams: Vec<Self>)
        ensures
            upstreams.len() == addresses.len(),
            forall|i: int|
                0 <= i < addresses.len() ==> (#[trigger] upstreams[i])@ == (UpstreamView {
                    address: addresses[i]@,
                    alive: true,
                }),
    {
        let mut upstreams: Vec<Upstream> = Vec::new();
        let ghost all = addresses@;
        for address in it: addresses
            invariant
                it.seq() == all,
                upstreams.len() == it.index(),
                forall|i: int|
                    0 <= i < upstreams.len() ==> (#[trigger] upstreams[i])@ == (UpstreamView {
                        address: all[i]@,
                        alive: true,
                    }),
        {
            upstreams.push(Upstream::new(address));
        }
        upstreams
    }

    pub fn get_addr(&self) -> (address: &String)
        ensures
            address@ == self@.address,
    {
        &self.address
    }

    pub fn is_alive(&self) -> (alive: bool)
        ensures
            alive == self@.alive,
    {
        self.alive
    }

    pub fn set_alive(&mut self, status: bool)
        ensures
            *final(self) == old(self).flagged(status),
            final(self)@ == (UpstreamView { address: old(self)@.address, alive: status }),
    {
        self.alive = status;
    }
}

/// Sets the liveness flag of upstream `index` and leaves the rest of the
/// registry as it was. An index past the end changes nothing.
pub fn mark(upstreams: &mut Vec<Upstream>, index: usize, alive: bool)
    ensures
        final(upstreams)@ == set_flag(old(upstreams)@, index as int, alive),
{
    if index < upstreams.len() {
        upstreams[index].set_alive(alive);
        assert(upstreams@ =~= set_flag(old(upstreams)@, index as int, alive));
    }
}

/// The number of upstreams currently flagged alive, or `None` when all are
/// dead.
pub fn exist_alive_upstream(upstreams: &Vec<Upstream>) -> (count: Option<usize>)
    ensures
        count == if live_count(upstreams@) == 0 {
            None
        } else {
            Some(live_count(upstreams@) as usize)
        },
        live_count(upstreams@) <= upstreams.len(),
{
    let mut cnt: usize = 0;
    let mut i: usize = 0;
    while i < upstreams.len()
        invariant
            i <= upstreams.len(),
            cnt == live_count(upstreams@.take(i as int)),
            cnt <= i,
        decreases upstreams.len() - i,
    {
        proof {
            lemma_live_count_step(upstreams@, i as int);
        }
        if upstreams[i].is_alive() {
            cnt = cnt + 1;
        }
        i = i + 1;
    }
    assert(upstreams@.take(i as int) =~= upstreams@);
    if cnt == 0 {
        None
    } else {
        Some(cnt)
    }
}

/// The position of the `k`-th live upstream (counting from zero), or `None`
/// when fewer than `k + 1` upstreams are alive.
pub fn nth_live(upstreams: &Vec<Upstream>, k: usize) -> (position: Option<usize>)
    ensures
        match position {
            Some(i) => is_kth_live(upstreams@, k as nat, i as int),
            None => live_count(upstreams@) <= k,
        },
        position is Some <==> k < live_count(upstreams@),
{
    let mut seen: usize = 0;
    let mut i: usize = 0;
    while i < upstreams.len()
        invariant
            i <= upstreams.len(),
            seen == live_count(upstreams@.take(i as int)),
            seen <= k,
            seen <= i,
        decreases upstreams.len() - i,
    {
        proof {
            lemma_live_count_step(upstreams@, i as int);
        }
        if upstreams[i].is_alive() {
            if seen == k {
                proof {
                    lemma_kth_live_unique(upstreams@, k as nat, i as int, i as int);
                }
                return Some(i);
            }
            seen = seen + 1;
        }
        i = i + 1;
    }
    assert(upstreams@.take(i as int) =~= upstreams@);
    None
}

/// Draws uniformly among the upstreams currently flagged alive. Returns the
/// position of the one drawn, or `None` when all are dead. The draw is a
/// uniform rank below the live count, turned into a position by [`nth_live`].
pub fn select_random_live(upstreams: &Vec<Upstream>, rng: &mut StdRng) -> (choice: Option<usize>)
    ensures
        choice is None <==> live_count(upstreams@) == 0,
        choice matches Some(i) ==> i < upstreams.len() && upstreams[i as int]@.alive,
{
    match exist_alive_upstream(upstreams) {
        None => None,
        Some(count) => {
            let rank = draw_below(rng, count);
            nth_live(upstreams, rank)
        },
    }
}

/// One round of finding an upstream to connect to. `failed` names the
/// candidate whose connection attempt has just failed, if any: it is marked
/// dead first. The result is the next candidate, drawn among the upstreams
/// still alive, or `None` when none is left, which is final for this client.
/// Every failed attempt on a live candidate leaves one live upstream fewer, so
/// a client that keeps failing runs out of candidates.
pub fn connect_to_upstream(
    upstreams: &mut Vec<Upstream>,
    rng: &mut StdRng,
    failed: Option<usize>,
) -> (candidate: Option<usize>)
    ensures
        final(upstreams)@ == after_failure(old(upstreams)@, failed),
        candidate is None <==> live_count(final(upstreams)@) == 0,
        candidate matches Some(i) ==> i < final(upstreams).len() && final(upstreams)[i as int]@.alive,
        same_addresses(old(upstreams)@, final(upstreams)@),
        failed matches Some(f) ==> f < old(upstreams).len() && old(upstreams)[f as int]@.alive
            ==> live_count(final(upstreams)@) == live_count(old(upstreams)@) - 1,
{
    if let Some(f) = failed {
        mark(upstreams, f, false);
        proof {
            lemma_set_flag(old(upstreams)@, f as int, false);
        }
    }
    select_random_live(upstreams, rng)
}

} // verus!
