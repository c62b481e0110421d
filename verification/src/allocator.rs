use vstd::prelude::*;

use crate::models::{NewUrl, Url};
use crate::store::{fault_at, has_code, InsertError, MemStore};

verus! {

/// Why an allocation gave no short code.
#[derive(Debug, Clone, Copy, PartialEq, Eq, Structural)]
pub enum AllocationError {
    /// Every one of the allowed attempts hit the unique constraint.
    Exhausted,
    /// The store failed for a reason other than a uniqueness violation;
    /// never retried.
    StoreFailure,
}

/// Attempt number `j` (0-based, with store calls starting at `base`) is a
/// uniqueness collision: no fault is scheduled for that call and the
/// candidate code is already taken.
pub open spec fn collides(
    rows: Seq<Url>,
    faults: Seq<bool>,
    base: int,
    codes: Seq<String>,
    j: int,
) -> bool {
    &&& !fault_at(faults, base + j)
    &&& has_code(rows, codes[j]@)
}

/// The first attempt in `from..max` that is not a uniqueness collision —
/// the attempt on which the allocation loop stops — or `max` if every
/// attempt collides.
pub open spec fn first_decisive(
    rows: Seq<Url>,
    faults: Seq<bool>,
    base: int,
    codes: Seq<String>,
    from: int,
    max: int,
) -> int
    decreases max - from when from <= max
{
    if from >= max {
        max
    } else if collides(rows, faults, base, codes, from) {
        first_decisive(rows, faults, base, codes, from + 1, max)
    } else {
        from
    }
}

/// The bounded-retry policy: counts failed insert attempts and decides,
/// from the classified store error alone, whether to retry with a fresh
/// code or to give up — and with which error. This is the whole of the
/// collision-handling protocol; the store's unique constraint is the only
/// arbiter of code ownership.
pub struct RetryPolicy {
    /// Insert attempts that have failed so far.
    pub attempts: usize,
    /// Hard ceiling on attempts.
    pub max_attempts: usize,
}

impl RetryPolicy {
    pub open spec fn wf(self) -> bool {
        &&& 1 <= self.max_attempts
        &&& self.attempts < self.max_attempts
    }

    pub fn new(max_attempts: usize) -> (p: RetryPolicy)
        requires
            1 <= max_attempts,
        ensures
            p.wf(),
            p.attempts == 0,
            p.max_attempts == max_attempts,
    {
        RetryPolicy { attempts: 0, max_attempts }
    }

    /// Record one failed insert attempt and decide. A uniqueness violation
    /// is the only error worth retrying: anything else aborts at once with
    /// `StoreFailure`. Once `max_attempts` attempts have failed with
    /// violations, the allocation aborts with `Exhausted` — never later.
    pub fn on_failure(&mut self, error: InsertError) -> (d: Option<AllocationError>)
        requires
            old(self).wf(),
        ensures
            final(self).max_attempts == old(self).max_attempts,
            final(self).attempts == old(self).attempts + 1,
            error is Other ==> d == Some(AllocationError::StoreFailure),
            error is UniqueViolation && old(self).attempts + 1 >= old(self).max_attempts ==> d
                == Some(AllocationError::Exhausted),
            error is UniqueViolation && old(self).attempts + 1 < old(self).max_attempts ==> (d
                is None && final(self).wf()),
    {
        self.attempts = self.attempts + 1;
        match error {
            InsertError::Other => Some(AllocationError::StoreFailure),
            InsertError::UniqueViolation => {
                if self.attempts >= self.max_attempts {
                    Some(AllocationError::Exhausted)
                } else {
                    None
                }
            },
        }
    }
}

/// Allocate a short code for `original_url` against `store`, taking candidate
/// codes from `codes` in order (the deterministic stand-in for the random
/// generator). Let `d` be the first attempt that is not a uniqueness
/// collision. If `d < max_attempts` and no fault is scheduled there, the
/// allocation succeeds on attempt `d + 1`, appending exactly one row; if a
/// fault is scheduled there, it stops at once with `StoreFailure`; if every
/// attempt up to `max_attempts` collides, it stops with `Exhausted` after
/// exactly `max_attempts` attempts. The store's rows are untouched on
/// failure, and its unique-code invariant is preserved in every case.
pub fn allocate(
    store: &mut MemStore,
    codes: &Vec<String>,
    original_url: &String,
    max_attempts: usize,
) -> (r: Result<String, AllocationError>)
    requires
        old(store).wf(),
        1 <= max_attempts,
        codes@.len() >= max_attempts,
        old(store).calls + max_attempts <= usize::MAX,
        old(store).rows@.len() < i32::MAX as int,
    ensures
        final(store).wf(),
        final(store).faults@ == old(store).faults@,
        final(store).now == old(store).now,
        ({
            let d = first_decisive(
                old(store).rows@,
                old(store).faults@,
                old(store).calls as int,
                codes@,
                0,
                max_attempts as int,
            );
            if d == max_attempts {
                &&& r == Result::<String, AllocationError>::Err(AllocationError::Exhausted)
                &&& final(store).rows@ == old(store).rows@
                &&& final(store).calls == old(store).calls + max_attempts
            } else if fault_at(old(store).faults@, old(store).calls + d) {
                &&& r == Result::<String, AllocationError>::Err(AllocationError::StoreFailure)
                &&& final(store).rows@ == old(store).rows@
                &&& final(store).calls == old(store).calls + d + 1
            } else {
                &&& r matches Ok(code) && code@ == codes@[d]@
                &&& final(store).rows@.len() == old(store).rows@.len() + 1
                &&& final(store).rows@ == old(store).rows@.push(final(store).rows@.last())
                &&& final(store).rows@.last().short_code@ == codes@[d]@
                &&& final(store).rows@.last().original_url@ == original_url@
                &&& final(store).rows@.last().id == old(store).rows@.len()
                &&& final(store).rows@.last().created_at == old(store).now
                &&& final(store).calls == old(store).calls + d + 1
            }
        }),
{
    let ghost rows0 = old(store).rows@;
    let ghost faults0 = old(store).faults@;
    let ghost base = old(store).calls as int;
    let ghost maxi = max_attempts as int;
    let ghost now0 = old(store).now;
    let mut policy = RetryPolicy::new(max_attempts);
    loop
        invariant
            rows0 == old(store).rows@,
            faults0 == old(store).faults@,
            base == old(store).calls as int,
            maxi == max_attempts as int,
            now0 == old(store).now,
            store.wf(),
            store.rows@ == rows0,
            store.faults@ == faults0,
            store.now == now0,
            policy.wf(),
            policy.max_attempts == max_attempts,
            codes@.len() >= max_attempts,
            base + maxi <= usize::MAX,
            rows0.len() < i32::MAX as int,
            store.calls == base + policy.attempts,
            forall|k: int| 0 <= k < policy.attempts as int ==> collides(
                rows0,
                faults0,
                base,
                codes@,
                k,
            ),
        decreases max_attempts - policy.attempts,
    {
        let ghost j = policy.attempts as int;
        let i = policy.attempts;
        let new_url = NewUrl {
            original_url: original_url.clone(),
            short_code: codes[i].clone(),
        };
        let attempt = store.try_insert(new_url);
        match attempt {
            Ok(rec) => {
                proof {
                    assert(!collides(rows0, faults0, base, codes@, j));
                    lemma_first_decisive_prefix(rows0, faults0, base, codes@, j, maxi);
                    assert(store.rows@.last() == rec);
                }
                return Ok(rec.short_code);
            },
            Err(e) => {
                proof {
                    if e is UniqueViolation {
                        assert(collides(rows0, faults0, base, codes@, j));
                    } else {
                        assert(fault_at(faults0, base + j));
                        assert(!collides(rows0, faults0, base, codes@, j));
                        lemma_first_decisive_prefix(rows0, faults0, base, codes@, j, maxi);
                    }
                }
                match policy.on_failure(e) {
                    Some(err) => {
                        proof {
                            if err is Exhausted {
                                lemma_bounded_retry(rows0, faults0, base, codes@, maxi);
                            }
                        }
                        return Err(err);
                    },
                    None => {},
                }
            },
        }
    }
}

/// If every attempt before `j` collides and attempt `j` does not, then `j`
/// is the first decisive attempt.
proof fn lemma_first_decisive_prefix(
    rows: Seq<Url>,
    faults: Seq<bool>,
    base: int,
    codes: Seq<String>,
    j: int,
    max: int,
)
    requires
        0 <= j < max,
        forall|k: int| 0 <= k < j ==> collides(rows, faults, base, codes, k),
        !collides(rows, faults, base, codes, j),
    ensures
        first_decisive(rows, faults, base, codes, 0, max) == j,
{
    lemma_first_decisive_from(rows, faults, base, codes, 0, j, max);
}

/// If every attempt in `from..j` collides, searching from `from` is the
/// same as searching from `j`.
proof fn lemma_first_decisive_from(
    rows: Seq<Url>,
    faults: Seq<bool>,
    base: int,
    codes: Seq<String>,
    from: int,
    j: int,
    max: int,
)
    requires
        0 <= from <= j <= max,
        forall|k: int| from <= k < j ==> collides(rows, faults, base, codes, k),
    ensures
        first_decisive(rows, faults, base, codes, from, max) == first_decisive(
            rows,
            faults,
            base,
            codes,
            j,
            max,
        ),
    decreases j - from,
{
    if from < j {
        lemma_first_decisive_from(rows, faults, base, codes, from + 1, j, max);
    }
}

/// Bounded retry: if the store reports a uniqueness violation on every
/// attempt — no fault is scheduled and every candidate code is already
/// taken — then no attempt is decisive, and by `allocate`'s contract the
/// allocation returns `Exhausted` after exactly `max` attempts, never more.
pub proof fn lemma_bounded_retry(
    rows: Seq<Url>,
    faults: Seq<bool>,
    base: int,
    codes: Seq<String>,
    max: int,
)
    requires
        0 <= max,
        forall|k: int| 0 <= k < max ==> collides(rows, faults, base, codes, k),
    ensures
        first_decisive(rows, faults, base, codes, 0, max) == max,
{
    lemma_first_decisive_from(rows, faults, base, codes, 0, max, max);
}

/// Fail-fast: if the store's first call fails with a non-uniqueness error,
/// the very first attempt is decisive, and by `allocate`'s contract the
/// allocation returns `StoreFailure` after exactly one attempt — no retry.
pub proof fn lemma_fail_fast(
    rows: Seq<Url>,
    faults: Seq<bool>,
    base: int,
    codes: Seq<String>,
    max: int,
)
    requires
        1 <= max,
        fault_at(faults, base),
    ensures
        first_decisive(rows, faults, base, codes, 0, max) == 0,
        fault_at(faults, base + first_decisive(rows, faults, base, codes, 0, max)),
{
}

} // verus!
