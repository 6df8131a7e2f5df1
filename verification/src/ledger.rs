//! The mathematical model of the resource ledger: how many units of a fixed
//! pool are idle, and what reserving and releasing do to that number.

use vstd::prelude::*;

verus! {

/// What a ledger holds.
pub struct Ledger {
    /// The size of the pool.
    pub capacity: nat,
    /// The units that no job holds.
    pub idle: nat,
}

/// One request to a ledger.
pub enum LedgerOp {
    /// A job asks for this many units.
    Reserve(nat),
    /// A job gives this many units back.
    Release(nat),
}

impl Ledger {
    /// No more units are idle than the pool has.
    pub open spec fn wf(self) -> bool {
        self.idle <= self.capacity
    }

    /// A ledger of `capacity` units, all idle.
    pub open spec fn fresh(capacity: nat) -> Ledger {
        Ledger { capacity, idle: capacity }
    }

    /// Whether a request for `n` units is granted: at least one unit is idle,
    /// and at least `n` are.
    pub open spec fn can_reserve(self, n: nat) -> bool {
        self.idle >= 1 && self.idle >= n
    }

    /// The ledger after a request for `n` units: `n` fewer idle where the
    /// request is granted, unchanged where it is denied.
    pub open spec fn reserve(self, n: nat) -> Ledger {
        if self.can_reserve(n) {
            Ledger { capacity: self.capacity, idle: (self.idle - n) as nat }
        } else {
            self
        }
    }

    /// The ledger after `n` units are given back.
    pub open spec fn release(self, n: nat) -> Ledger {
        Ledger { capacity: self.capacity, idle: self.idle + n }
    }

    /// The ledger after one request.
    pub open spec fn apply(self, op: LedgerOp) -> Ledger {
        match op {
            LedgerOp::Reserve(n) => self.reserve(n),
            LedgerOp::Release(n) => self.release(n),
        }
    }

    /// The ledger after the requests, first to last.
    pub open spec fn replay(self, ops: Seq<LedgerOp>) -> Ledger
        decreases ops.len(),
    {
        if ops.len() == 0 {
            self
        } else {
            self.replay(ops.drop_last()).apply(ops.last())
        }
    }

    /// The units that were granted along `ops` and not given back: what the
    /// jobs in flight hold after the last request.
    pub open spec fn outstanding(self, ops: Seq<LedgerOp>) -> int
        decreases ops.len(),
    {
        if ops.len() == 0 {
            0
        } else {
            let held = self.outstanding(ops.drop_last());
            match ops.last() {
                LedgerOp::Reserve(n) => if self.replay(ops.drop_last()).can_reserve(n) {
                    held + n
                } else {
                    held
                },
                LedgerOp::Release(n) => held - n,
            }
        }
    }

    /// Every release gives back no more than is held at that moment: each
    /// release belongs to reservations granted before it.
    pub open spec fn releases_matched(self, ops: Seq<LedgerOp>) -> bool {
        forall|k: int|
            0 <= k < ops.len() ==> (#[trigger] ops[k] matches LedgerOp::Release(n)
                ==> n <= self.outstanding(ops.take(k)))
    }
}

/// A request for more units than are idle is denied and changes nothing.
pub proof fn lemma_denied_request_changes_nothing(l: Ledger, k: nat)
    requires
        l.idle < k,
    ensures
        !l.can_reserve(k),
        l.reserve(k) == l,
{
}

/// Conservation: along any sequence of requests in which each release belongs
/// to an earlier grant, the idle units and the units held by jobs in flight
/// always add up to what was idle at the start. So the idle count never
/// leaves the pool, and once nothing is held it is back where it started: at
/// `capacity`, for a ledger that started fresh.
pub proof fn lemma_conservation(l: Ledger, ops: Seq<LedgerOp>)
    requires
        l.wf(),
        l.releases_matched(ops),
    ensures
        l.replay(ops).capacity == l.capacity,
        l.replay(ops).idle + l.outstanding(ops) == l.idle,
        0 <= l.outstanding(ops),
        l.replay(ops).idle <= l.capacity,
        l.replay(ops).wf(),
        l.outstanding(ops) == 0 ==> l.replay(ops).idle == l.idle,
    decreases ops.len(),
{
    if ops.len() > 0 {
        let earlier = ops.drop_last();
        assert forall|k: int| 0 <= k < earlier.len() implies (#[trigger] earlier[k] matches LedgerOp::Release(
            n,
        ) ==> n <= l.outstanding(earlier.take(k))) by {
            assert(earlier.take(k) =~= ops.take(k));
        }
        lemma_conservation(l, earlier);
    }
}

/// The same holds at every moment along the way: after any number of the
/// requests the idle count is inside the pool, and together with what is held
/// it makes up what was idle at the start.
pub proof fn lemma_conservation_at_every_step(l: Ledger, ops: Seq<LedgerOp>, k: int)
    requires
        l.wf(),
        l.releases_matched(ops),
        0 <= k <= ops.len(),
    ensures
        l.replay(ops.take(k)).idle <= l.capacity,
        l.replay(ops.take(k)).idle + l.outstanding(ops.take(k)) == l.idle,
{
    let prefix = ops.take(k);
    assert forall|j: int| 0 <= j < prefix.len() implies (#[trigger] prefix[j] matches LedgerOp::Release(
        n,
    ) ==> n <= l.outstanding(prefix.take(j))) by {
        assert(prefix.take(j) =~= ops.take(j));
    }
    lemma_conservation(l, prefix);
}

} // verus!
