use vstd::prelude::*;
use vstd::rwlock::{RwLock, RwLockPredicate};

verus! {

/// An operation whose successful invocations are counted.
#[derive(Clone, Copy, Debug, PartialEq, Eq, Structural)]
pub enum Operation {
    ToCelcius,
    ToFahrenheit,
}

/// Per-operation invocation counts.
#[derive(Clone, Copy, Debug)]
pub struct Counters {
    to_celcius: u64,
    to_fahrenheit: u64,
}

/// How many times `op` occurs in `ops`.
pub open spec fn occurrences(ops: Seq<Operation>, op: Operation) -> nat
    decreases ops.len(),
{
    if ops.len() == 0 {
        0
    } else {
        occurrences(ops.drop_last(), op) + if ops.last() == op {
            1nat
        } else {
            0nat
        }
    }
}

impl Counters {
    /// The count recorded for `op`.
    pub closed spec fn spec_count(self, op: Operation) -> nat {
        match op {
            Operation::ToCelcius => self.to_celcius as nat,
            Operation::ToFahrenheit => self.to_fahrenheit as nat,
        }
    }

    /// `next` is `self` with one more invocation of `op` counted.
    pub open spec fn records(self, next: Counters, op: Operation) -> bool {
        &&& next.spec_count(op) == self.spec_count(op) + 1
        &&& forall|o: Operation| o != op ==> #[trigger] next.spec_count(o) == self.spec_count(o)
    }

    /// All counts at zero.
    pub fn zero() -> (c: Counters)
        ensures
            forall|op: Operation| #[trigger] c.spec_count(op) == 0,
    {
        Counters { to_celcius: 0, to_fahrenheit: 0 }
    }

    /// The count recorded for `op`.
    pub fn count(&self, op: Operation) -> (r: u64)
        ensures
            r == self.spec_count(op),
    {
        match op {
            Operation::ToCelcius => self.to_celcius,
            Operation::ToFahrenheit => self.to_fahrenheit,
        }
    }

    /// Adds one to the count of `op`, leaving the other counts as they are.
    pub fn increment(&mut self, op: Operation)
        requires
            old(self).spec_count(op) < u64::MAX,
        ensures
            old(self).records(*final(self), op),
    {
        match op {
            Operation::ToCelcius => self.to_celcius = self.to_celcius + 1,
            Operation::ToFahrenheit => self.to_fahrenheit = self.to_fahrenheit + 1,
        }
    }
}

/// Counts never decrease: recording any run of invocations, one at a time and
/// in any order, leaves each count at its starting value plus the number of
/// invocations of that operation in the run. No invocation is lost or counted
/// twice.
pub proof fn lemma_counts_match_invocations(states: Seq<Counters>, ops: Seq<Operation>)
    requires
        states.len() == ops.len() + 1,
        forall|k: int| 0 <= k < ops.len() ==> #[trigger] states[k].records(states[k + 1], ops[k]),
    ensures
        forall|op: Operation| #[trigger] states.last().spec_count(op)
            == states[0].spec_count(op) + occurrences(ops, op),
    decreases ops.len(),
{
    if ops.len() > 0 {
        let n = ops.len() - 1;
        let prefix = states.take(n + 1);
        assert forall|k: int| 0 <= k < ops.drop_last().len() implies #[trigger] prefix[k].records(
            prefix[k + 1],
            ops.drop_last()[k],
        ) by {
            assert(states[k].records(states[k + 1], ops[k]));
        }
        lemma_counts_match_invocations(prefix, ops.drop_last());
        assert(states[n].records(states[n + 1], ops[n]));
        assert forall|op: Operation| #[trigger] states.last().spec_count(op) == states[0].spec_count(
            op,
        ) + occurrences(ops, op) by {
            assert(prefix.last() == states[n]);
            assert(prefix.last().spec_count(op) == prefix[0].spec_count(op) + occurrences(
                ops.drop_last(),
                op,
            ));
        }
    }
}

impl Default for Counters {
    /// All counts at zero.
    fn default() -> (c: Counters)
        ensures
            forall|op: Operation| #[trigger] c.spec_count(op) == 0,
    {
        Counters::zero()
    }
}

/// What the lock around the counters requires of them: nothing beyond their type.
pub struct AnyCounters;

impl RwLockPredicate<Counters> for AnyCounters {
    open spec fn inv(self, v: Counters) -> bool {
        true
    }
}

/// Usage statistics shared by concurrent request handlers. Each update holds
/// the lock for one increment, so concurrent updates take effect one at a
/// time and none is lost.
pub struct UsageStats {
    counters: RwLock<Counters, AnyCounters>,
}

impl UsageStats {
    /// Statistics with every count at zero.
    pub fn new() -> (s: UsageStats) {
        UsageStats { counters: RwLock::new(Counters::zero(), Ghost(AnyCounters)) }
    }

    /// Counts one invocation of `op`. The result tells whether it was
    /// counted, which fails only when the count is at its largest value,
    /// with the counts just before and just after the moment it took effect.
    pub fn record(&self, op: Operation) -> (r: (bool, Ghost<(Counters, Counters)>))
        ensures
            r.0 <==> r.1@.0.spec_count(op) < u64::MAX,
            r.0 ==> r.1@.0.records(r.1@.1, op),
            !r.0 ==> r.1@.1 == r.1@.0,
    {
        let (mut c, handle) = self.counters.acquire_write();
        let ghost before = c;
        let counted = c.count(op) < u64::MAX;
        if counted {
            c.increment(op);
        }
        let ghost after = c;
        handle.release_write(c);
        (counted, Ghost((before, after)))
    }

    /// A copy of the counts as they stood at one moment.
    pub fn snapshot(&self) -> (c: Counters) {
        let handle = self.counters.acquire_read();
        let c = *handle.borrow();
        handle.release_read();
        c
    }

    /// The count of `op` as it stood at one moment.
    pub fn count(&self, op: Operation) -> (r: u64) {
        self.snapshot().count(op)
    }
}

} // verus!
