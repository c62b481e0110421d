use vstd::prelude::*;

use crate::models::{NewUrl, Url};
use crate::utils::str_eq;

verus! {

/// Why an insert attempt was refused by the store.
#[derive(Debug, Clone, Copy, PartialEq, Eq, Structural)]
pub enum InsertError {
    /// The unique constraint on `short_code` rejected the row.
    UniqueViolation,
    /// Any other store failure (connectivity, an unrelated constraint, ...).
    Other,
}

/// `c` is the short code of some row.
pub open spec fn has_code(rows: Seq<Url>, c: Seq<char>) -> bool {
    exists|i: int| 0 <= i < rows.len() && #[trigger] rows[i].short_code@ == c
}

/// No two rows share a short code.
pub open spec fn unique_codes(rows: Seq<Url>) -> bool {
    forall|i: int, j: int|
        0 <= i < rows.len() && 0 <= j < rows.len() && i != j
            ==> #[trigger] rows[i].short_code@ != #[trigger] rows[j].short_code@
}

/// The first row whose short code is `c`, if any.
pub open spec fn spec_find(rows: Seq<Url>, c: Seq<char>) -> Option<Url>
    decreases rows.len(),
{
    if rows.len() == 0 {
        None
    } else if rows[0].short_code@ == c {
        Some(rows[0])
    } else {
        spec_find(rows.drop_first(), c)
    }
}

/// Whether the store fails call number `call` with a non-uniqueness error.
pub open spec fn fault_at(faults: Seq<bool>, call: int) -> bool {
    0 <= call < faults.len() && faults[call]
}

/// Whether some row carries the short code `code`.
fn contains_code(rows: &Vec<Url>, code: &str) -> (r: bool)
    ensures
        r == has_code(rows@, code@),
{
    let mut i: usize = 0;
    while i < rows.len()
        invariant
            i <= rows@.len(),
            forall|k: int| 0 <= k < i as int ==> #[trigger] rows@[k].short_code@ != code@,
        decreases rows@.len() - i,
    {
        if str_eq(rows[i].short_code.as_str(), code) {
            proof {
                assert(has_code(rows@, code@));
            }
            return true;
        }
        i = i + 1;
    }
    false
}

/// An in-memory store with the same observable contract as the persistent
/// backend: an atomic insert guarded by a unique constraint on `short_code`,
/// and a lookup by short code. `faults` is a schedule of injected
/// non-uniqueness failures, indexed by call number, so that tests can drive
/// the allocator through every store outcome deterministically.
pub struct MemStore {
    pub rows: Vec<Url>,
    pub faults: Vec<bool>,
    /// Number of insert attempts made so far.
    pub calls: usize,
    /// The creation time stamped on newly inserted rows.
    pub now: i64,
}

impl MemStore {
    /// Rows hold pairwise distinct short codes.
    pub open spec fn wf(self) -> bool {
        unique_codes(self.rows@)
    }

    /// An empty store with no scheduled faults.
    pub fn new() -> (s: MemStore)
        ensures
            s.wf(),
            s.rows@ =~= Seq::<Url>::empty(),
            s.faults@ =~= Seq::<bool>::empty(),
            s.calls == 0,
            s.now == 0,
    {
        MemStore { rows: Vec::new(), faults: Vec::new(), calls: 0, now: 0 }
    }

    /// Attempt to insert one row, atomically with respect to the unique
    /// constraint on `short_code`. Exactly one of three outcomes:
    /// a scheduled fault yields `Err(Other)`; a short code already present
    /// yields `Err(UniqueViolation)`; otherwise the row is appended with a
    /// fresh id and the current time, and returned. Rows already stored are
    /// never modified.
    pub fn try_insert(&mut self, new_url: NewUrl) -> (r: Result<Url, InsertError>)
        requires
            old(self).wf(),
            old(self).calls < usize::MAX,
            old(self).rows@.len() < i32::MAX as int,
        ensures
            final(self).wf(),
            final(self).calls == old(self).calls + 1,
            final(self).faults@ == old(self).faults@,
            final(self).now == old(self).now,
            ({
                let fault = fault_at(old(self).faults@, old(self).calls as int);
                let taken = has_code(old(self).rows@, new_url.short_code@);
                if fault {
                    &&& r == Result::<Url, InsertError>::Err(InsertError::Other)
                    &&& final(self).rows@ == old(self).rows@
                } else if taken {
                    &&& r == Result::<Url, InsertError>::Err(InsertError::UniqueViolation)
                    &&& final(self).rows@ == old(self).rows@
                } else {
                    &&& r matches Ok(rec) && final(self).rows@ == old(self).rows@.push(rec)
                        && rec.short_code@ == new_url.short_code@
                        && rec.original_url@ == new_url.original_url@
                        && rec.id == old(self).rows@.len()
                        && rec.created_at == old(self).now
                }
            }),
    {
        let call: usize = self.calls;
        self.calls = call + 1;
        if call < self.faults.len() && self.faults[call] {
            return Err(InsertError::Other);
        }
        if contains_code(&self.rows, new_url.short_code.as_str()) {
            return Err(InsertError::UniqueViolation);
        }
        let rec = Url {
            id: self.rows.len() as i32,
            original_url: new_url.original_url,
            short_code: new_url.short_code,
            created_at: self.now,
        };
        let out = Url {
            id: rec.id,
            original_url: rec.original_url.clone(),
            short_code: rec.short_code.clone(),
            created_at: rec.created_at,
        };
        let ghost grec = rec;
        self.rows.push(rec);
        proof {
            let rs = self.rows@;
            assert(out == grec);
            assert forall|a: int, b: int|
                0 <= a < rs.len() && 0 <= b < rs.len() && a != b implies rs[a].short_code@ != rs[b].short_code@ by {
                if a < rs.len() - 1 && b < rs.len() - 1 {
                    assert(old(self).rows@[a].short_code@ != old(self).rows@[b].short_code@);
                }
            }
        }
        Ok(out)
    }

    /// Look a short code up. Returns the first (with `wf`, the only) row
    /// carrying that code; `None` is a lookup miss. Reads nothing but
    /// `self.rows`, so the result is a pure function of the store's contents.
    pub fn find_by_short_code(&self, code: &str) -> (r: Option<Url>)
        ensures
            r == spec_find(self.rows@, code@),
    {
        proof {
            assert(self.rows@.skip(0) =~= self.rows@);
        }
        let mut i: usize = 0;
        while i < self.rows.len()
            invariant
                i <= self.rows@.len(),
                spec_find(self.rows@, code@) == spec_find(self.rows@.skip(i as int), code@),
            decreases self.rows@.len() - i,
        {
            proof {
                assert(self.rows@.skip(i as int)[0] == self.rows@[i as int]);
                assert(self.rows@.skip(i as int).drop_first() =~= self.rows@.skip(i as int + 1));
            }
            if str_eq(self.rows[i].short_code.as_str(), code) {
                let row = &self.rows[i];
                let out = Url {
                    id: row.id,
                    original_url: row.original_url.clone(),
                    short_code: row.short_code.clone(),
                    created_at: row.created_at,
                };
                proof {
                    assert(out == self.rows@[i as int]);
                }
                return Some(out);
            }
            i = i + 1;
        }
        proof {
            assert(self.rows@.skip(i as int) =~= Seq::<Url>::empty());
        }
        None
    }
}

/// Existing rows are never changed by later inserts: a code that resolves to
/// a record keeps resolving to that same record after any row is appended.
pub proof fn lemma_insert_preserves_reads(rows: Seq<Url>, added: Url, c: Seq<char>)
    requires
        spec_find(rows, c) is Some,
    ensures
        spec_find(rows.push(added), c) == spec_find(rows, c),
    decreases rows.len(),
{
    if rows.len() == 0 {
    } else if rows[0].short_code@ == c {
        assert(rows.push(added)[0] == rows[0]);
    } else {
        assert(rows.push(added).drop_first() =~= rows.drop_first().push(added));
        lemma_insert_preserves_reads(rows.drop_first(), added, c);
    }
}

/// A lookup hits exactly when some row carries the code, and what it returns
/// is a stored row carrying that code.
pub proof fn lemma_find_hits_iff_present(rows: Seq<Url>, c: Seq<char>)
    ensures
        spec_find(rows, c) is Some <==> has_code(rows, c),
        spec_find(rows, c) matches Some(u) ==> u.short_code@ == c && rows.contains(u),
    decreases rows.len(),
{
    if rows.len() == 0 {
    } else if rows[0].short_code@ == c {
        assert(has_code(rows, c));
    } else {
        lemma_find_hits_iff_present(rows.drop_first(), c);
        if has_code(rows, c) {
            let i = choose|i: int| 0 <= i < rows.len() && rows[i].short_code@ == c;
            assert(rows.drop_first()[i - 1].short_code@ == c);
            assert(has_code(rows.drop_first(), c));
        }
        if has_code(rows.drop_first(), c) {
            let i = choose|i: int|
                0 <= i < rows.drop_first().len() && rows.drop_first()[i].short_code@ == c;
            assert(rows[i + 1].short_code@ == c);
            assert(has_code(rows, c));
        }
        if spec_find(rows, c) is Some {
            let u = spec_find(rows, c)->0;
            assert(rows.drop_first().contains(u));
            let i = choose|i: int| 0 <= i < rows.drop_first().len() && rows.drop_first()[i] == u;
            assert(rows[i + 1] == u);
        }
    }
}

/// A freshly reserved code resolves to its own record: if no existing row
/// carries `added`'s code, then after appending `added` a lookup of that code
/// returns exactly `added`.
pub proof fn lemma_fresh_code_resolves(rows: Seq<Url>, added: Url)
    requires
        !has_code(rows, added.short_code@),
    ensures
        spec_find(rows.push(added), added.short_code@) == Some(added),
    decreases rows.len(),
{
    let c = added.short_code@;
    if rows.len() == 0 {
        assert(rows.push(added)[0] == added);
    } else {
        assert(rows.push(added)[0] == rows[0]);
        assert(rows[0].short_code@ != c) by {
            if rows[0].short_code@ == c {
                assert(has_code(rows, c));
            }
        }
        assert(rows.push(added).drop_first() =~= rows.drop_first().push(added));
        assert(!has_code(rows.drop_first(), c)) by {
            if has_code(rows.drop_first(), c) {
                let i = choose|i: int|
                    0 <= i < rows.drop_first().len() && rows.drop_first()[i].short_code@ == c;
                assert(rows[i + 1].short_code@ == c);
                assert(has_code(rows, c));
            }
        }
        lemma_fresh_code_resolves(rows.drop_first(), added);
    }
}

/// Uniqueness, spelled out: in a well-formed store no two distinct rows
/// carry the same short code.
pub proof fn lemma_short_codes_unique(s: MemStore, i: int, j: int)
    requires
        s.wf(),
        0 <= i < s.rows@.len(),
        0 <= j < s.rows@.len(),
        i != j,
    ensures
        s.rows@[i].short_code@ != s.rows@[j].short_code@,
{
}

} // verus!
