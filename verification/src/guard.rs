//! The loop-guard protocol that makes every bounded loop checkable.
//!
//! The sandbox forbids unbounded iteration.  Before the first branch of
//! a bounded loop the program declares, under a call-site-unique token,
//! the greatest number of times that loop body will run in this
//! invocation, and every iteration re-asserts the token.  The host keeps
//! one running count per token and aborts the whole invocation when a
//! count passes its declared bound, when one token is re-declared with a
//! different bound, or when a bound of zero is declared and the token is
//! still asserted.
//!
//! `GuardMeter` is the model of that per-invocation host state: a finite
//! map from token to declared bound and running count.  The guarded
//! helpers of this crate take the meter and are proved never to trip it,
//! which is exactly the point of the protocol: a loop whose declaration
//! is right never aborts.

use vstd::prelude::*;

use crate::error::Error;
use crate::result::Result;

verus! {

/// One token's declared bound and running count.
#[derive(Clone, Copy)]
struct GuardSlot {
    id: u32,
    bound: u32,
    count: u32,
}

/// The host's per-invocation guard state: for every asserted token, its
/// declared bound and how often it has been asserted so far.
pub struct GuardMeter {
    slots: Vec<GuardSlot>,
}

/// Whether asserting `id` under `bound` passes on state `m`: a fresh
/// token needs a positive bound, a known token needs the same bound it
/// declared and room left under it.
pub open spec fn guard_ok(m: Map<u32, (u32, u32)>, id: u32, bound: u32) -> bool {
    if m.dom().contains(id) {
        m[id].0 == bound && m[id].1 + 1 <= bound
    } else {
        1 <= bound
    }
}

/// The guard state after asserting `id` under `bound`: a passing
/// assertion counts one more hit, a failing one leaves the state as it
/// was, because the invocation aborts there.
pub open spec fn guard_next(m: Map<u32, (u32, u32)>, id: u32, bound: u32) -> Map<u32, (u32, u32)> {
    if guard_ok(m, id, bound) {
        if m.dom().contains(id) {
            m.insert(id, (bound, (m[id].1 + 1) as u32))
        } else {
            m.insert(id, (bound, 1))
        }
    } else {
        m
    }
}

impl GuardMeter {
    /// No token is recorded twice.
    pub closed spec fn wf(self) -> bool {
        forall|i: int, j: int|
            0 <= i < j < self.slots@.len() ==> self.slots@[i].id != self.slots@[j].id
    }

    /// Whether `id` has been asserted in this invocation.
    pub closed spec fn contains_token(self, id: u32) -> bool {
        exists|i: int| 0 <= i < self.slots@.len() && self.slots@[i].id == id
    }

    /// The position of `id` in the record.
    closed spec fn token_at(self, id: u32) -> int {
        choose|i: int| 0 <= i < self.slots@.len() && self.slots@[i].id == id
    }

    /// A recorded position is exactly the one `token_at` names.
    proof fn lemma_at(self, i: int)
        requires
            self.wf(),
            0 <= i < self.slots@.len(),
        ensures
            self.contains_token(self.slots@[i].id),
            self.token_at(self.slots@[i].id) == i,
    {
        let id = self.slots@[i].id;
        assert(self.contains_token(id));
        let k = self.token_at(id);
        assert(0 <= k < self.slots@.len() && self.slots@[k].id == id);
        if k != i {
            if k < i {
                assert(self.slots@[k].id != self.slots@[i].id);
            } else {
                assert(self.slots@[i].id != self.slots@[k].id);
            }
        }
    }

    /// A fresh meter: no token asserted yet.
    pub fn new() -> (m: GuardMeter)
        ensures
            m.wf(),
            m@ == Map::<u32, (u32, u32)>::empty(),
    {
        let m = GuardMeter { slots: Vec::new() };
        proof {
            assert(m@ =~= Map::<u32, (u32, u32)>::empty());
        }
        m
    }

    /// Asserts token `id` under the declared bound once, as the top of a
    /// guarded loop body does.
    ///
    /// The outcome and the new state follow `guard_ok` and `guard_next`
    /// exactly; the only failure is the fatal `Error::GuardViolation`.
    pub fn hit(&mut self, id: u32, bound: u32) -> (r: Result<()>)
        requires
            old(self).wf(),
        ensures
            final(self).wf(),
            r is Okay <==> guard_ok(old(self)@, id, bound),
            r is Fail ==> r == Result::<()>::Fail(Error::GuardViolation),
            final(self)@ == guard_next(old(self)@, id, bound),
    {
        let n = self.slots.len();
        let mut i: usize = 0;
        while i < n
            invariant
                self.wf(),
                n == self.slots@.len(),
                0 <= i <= n,
                forall|j: int| 0 <= j < i ==> self.slots@[j].id != id,
                *self == *old(self),
            decreases n - i,
        {
            if self.slots[i].id == id {
                proof {
                    self.lemma_at(i as int);
                }
                let slot = self.slots[i];
                if slot.bound != bound || slot.count >= bound {
                    proof {
                        assert(self@.dom().contains(id));
                        assert(self@[id] == (slot.bound, slot.count));
                        assert(!guard_ok(old(self)@, id, bound));
                    }
                    return Result::Fail(Error::GuardViolation);
                }
                let mut updated = slot;
                updated.count = slot.count + 1;
                let ghost pre = *self;
                self.slots.set(i, updated);
                proof {
                    assert forall|x: u32| self.contains_token(x) <==> pre.contains_token(
                        x,
                    ) by {
                        if self.contains_token(x) {
                            let k = self.token_at(x);
                            assert(pre.slots@[k].id == self.slots@[k].id);
                        }
                        if pre.contains_token(x) {
                            let k = pre.token_at(x);
                            assert(self.slots@[k].id == pre.slots@[k].id);
                        }
                    }
                    assert forall|x: u32| #[trigger] self.contains_token(x) implies self@[x]
                        == guard_next(pre@, id, bound)[x] by {
                        if x == id {
                            self.lemma_at(i as int);
                            assert(self@[x] == (bound, (slot.count + 1) as u32));
                        } else {
                            let k = self.token_at(x);
                            assert(0 <= k < self.slots@.len() && self.slots@[k].id == x);
                            assert(k != i as int);
                            assert(pre.slots@[k] == self.slots@[k]);
                            self.lemma_at(k);
                            pre.lemma_at(k);
                        }
                    }
                    assert(self@ =~= guard_next(pre@, id, bound));
                }
                return Result::Okay(());
            }
            i = i + 1;
        }
        // the token is fresh
        proof {
            assert(!old(self)@.dom().contains(id));
        }
        if bound < 1 {
            return Result::Fail(Error::GuardViolation);
        }
        let ghost pre = *self;
        self.slots.push(GuardSlot { id, bound, count: 1 });
        proof {
            let m = self.slots@.len() - 1;
            assert(self.slots@[m].id == id);
            assert forall|x: u32| self.contains_token(x) <==> (pre.contains_token(x) || x
                == id) by {
                if self.contains_token(x) && x != id {
                    let k = self.token_at(x);
                    assert(k != m);
                    assert(pre.slots@[k].id == x);
                }
                if pre.contains_token(x) {
                    let k = pre.token_at(x);
                    assert(self.slots@[k].id == x);
                }
            }
            assert(self.wf());
            assert forall|x: u32| #[trigger] self.contains_token(x) implies self@[x] == guard_next(
                pre@,
                id,
                bound,
            )[x] by {
                if x == id {
                    self.lemma_at(m);
                } else {
                    let k = self.token_at(x);
                    assert(0 <= k < self.slots@.len() && self.slots@[k].id == x);
                    assert(k != m);
                    assert(pre.slots@[k] == self.slots@[k]);
                    self.lemma_at(k);
                    pre.lemma_at(k);
                }
            }
            assert(self@ =~= guard_next(pre@, id, bound));
        }
        Result::Okay(())
    }
}

impl View for GuardMeter {
    type V = Map<u32, (u32, u32)>;

    /// The meter as a map from token to declared bound and running count.
    closed spec fn view(&self) -> Map<u32, (u32, u32)> {
        Map::new(
            |id: u32| self.contains_token(id),
            |id: u32| (self.slots@[self.token_at(id)].bound, self.slots@[self.token_at(id)].count),
        )
    }
}

/// The guard state after asserting `id` under `bound` exactly `k` times
/// in a row.
pub open spec fn guard_run(m: Map<u32, (u32, u32)>, id: u32, bound: u32, k: nat) -> Map<
    u32,
    (u32, u32),
>
    decreases k,
{
    if k == 0 {
        m
    } else {
        guard_next(guard_run(m, id, bound, (k - 1) as nat), id, bound)
    }
}

/// Whether `k` assertions of `id` under `bound` in a row all pass.
pub open spec fn guard_run_ok(m: Map<u32, (u32, u32)>, id: u32, bound: u32, k: nat) -> bool
    decreases k,
{
    if k == 0 {
        true
    } else {
        guard_run_ok(m, id, bound, (k - 1) as nat) && guard_ok(
            guard_run(m, id, bound, (k - 1) as nat),
            id,
            bound,
        )
    }
}

/// A loop that declares bound `b` for a fresh token and runs at most `b`
/// times passes every one of its guard assertions, and after `k` of them
/// the count reads exactly `k`.
pub proof fn lemma_guard_declared_bound_suffices(
    m: Map<u32, (u32, u32)>,
    id: u32,
    bound: u32,
    k: nat,
)
    requires
        !m.dom().contains(id),
        k <= bound,
    ensures
        guard_run_ok(m, id, bound, k),
        k >= 1 ==> guard_run(m, id, bound, k) == m.insert(id, (bound, k as u32)),
        k == 0 ==> guard_run(m, id, bound, k) == m,
    decreases k,
{
    if k >= 1 {
        lemma_guard_declared_bound_suffices(m, id, bound, (k - 1) as nat);
        assert(guard_run(m, id, bound, k) =~= m.insert(id, (bound, k as u32)));
    }
}

/// Running one more time than the declared bound trips the guard: the
/// assertion after the `b`-th one is refused.
pub proof fn lemma_guard_bound_exceeded(m: Map<u32, (u32, u32)>, id: u32, bound: u32)
    requires
        !m.dom().contains(id),
        bound >= 1,
    ensures
        !guard_ok(guard_run(m, id, bound, bound as nat), id, bound),
{
    lemma_guard_declared_bound_suffices(m, id, bound, bound as nat);
}

/// Distinct tokens do not share or disturb each other's counts: an
/// assertion of one token leaves every other token's entry exactly as it
/// was, and its own outcome never depends on the other's entry.
pub proof fn lemma_guard_tokens_independent(
    m: Map<u32, (u32, u32)>,
    id: u32,
    other: u32,
    bound: u32,
)
    requires
        id != other,
    ensures
        guard_next(m, id, bound).dom().contains(other) == m.dom().contains(other),
        m.dom().contains(other) ==> guard_next(m, id, bound)[other] == m[other],
{
}

} // verus!
