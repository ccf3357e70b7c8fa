//! The record store: CRUD against the collection of persisted investment
//! records. The store assigns identifiers (decimal numerals of a private
//! counter), owns `created_at` / `updated_at`, and keeps records in
//! insertion order. Each operation returns enough that a caller never needs
//! a follow-up read to observe its outcome.

use vstd::prelude::*;

use crate::digits::{decimal_of, lemma_decimal_of_injective, u64_to_string};
use crate::errors::StoreError;
use crate::record::{AffectedRows, Investment, InvestmentPatch, InvestmentPatchView, InvestmentView};

verus! {

/// The identifier of a record view, the empty sequence when absent.
pub open spec fn rec_id(r: InvestmentView) -> Seq<char> {
    match r.id {
        Some(s) => s,
        None => Seq::empty(),
    }
}

pub open spec fn has_id(r: InvestmentView) -> bool {
    r.id is Some
}

/// Every record carries an identifier.
pub open spec fn all_have_ids(s: Seq<InvestmentView>) -> bool {
    forall|i: int| 0 <= i < s.len() ==> has_id(#[trigger] s[i])
}

/// No two records share an identifier.
pub open spec fn unique_ids(s: Seq<InvestmentView>) -> bool {
    forall|i: int, j: int|
        0 <= i < s.len() && 0 <= j < s.len() && i != j ==> rec_id(#[trigger] s[i]) != rec_id(
            #[trigger] s[j],
        )
}

/// Some record carries the identifier `id`.
pub open spec fn contains_id(s: Seq<InvestmentView>, id: Seq<char>) -> bool {
    exists|i: int| 0 <= i < s.len() && has_id(#[trigger] s[i]) && rec_id(s[i]) == id
}

/// The position of the record carrying `id` (meaningful when
/// `contains_id(s, id)` holds and identifiers are unique).
pub open spec fn index_of_id(s: Seq<InvestmentView>, id: Seq<char>) -> int {
    choose|i: int| 0 <= i < s.len() && has_id(#[trigger] s[i]) && rec_id(s[i]) == id
}

/// With unique identifiers, any position carrying `id` is the position
/// `index_of_id` denotes.
pub proof fn lemma_index_of_id_unique(s: Seq<InvestmentView>, id: Seq<char>, i: int)
    requires
        unique_ids(s),
        0 <= i < s.len(),
        has_id(s[i]),
        rec_id(s[i]) == id,
    ensures
        contains_id(s, id),
        index_of_id(s, id) == i,
{
    assert(contains_id(s, id));
    let w = index_of_id(s, id);
    assert(0 <= w < s.len() && has_id(s[w]) && rec_id(s[w]) == id);
    if w != i {
        assert(rec_id(s[w]) != rec_id(s[i]));
    }
}

/// Once the one record carrying an identifier is removed, the collection no
/// longer contains that identifier — which is why deleting the same
/// identifier a second time affects zero records.
pub proof fn lemma_remove_id_absent(s: Seq<InvestmentView>, id: Seq<char>)
    requires
        unique_ids(s),
        contains_id(s, id),
    ensures
        !contains_id(s.remove(index_of_id(s, id)), id),
{
    let i = index_of_id(s, id);
    let s1 = s.remove(i);
    if contains_id(s1, id) {
        let j = choose|j: int| 0 <= j < s1.len() && has_id(#[trigger] s1[j]) && rec_id(s1[j]) == id;
        if j < i {
            assert(s1[j] == s[j]);
            assert(rec_id(s[j]) != rec_id(s[i]));
        } else {
            assert(s1[j] == s[j + 1]);
            assert(rec_id(s[j + 1]) != rec_id(s[i]));
        }
    }
}

/// Unique identifiers survive replacing one record by one that carries the
/// same identifier.
pub proof fn lemma_unique_ids_update(s: Seq<InvestmentView>, i: int, r: InvestmentView)
    requires
        unique_ids(s),
        0 <= i < s.len(),
        rec_id(r) == rec_id(s[i]),
    ensures
        unique_ids(s.update(i, r)),
{
    let s1 = s.update(i, r);
    assert forall|a: int, b: int|
        0 <= a < s1.len() && 0 <= b < s1.len() && a != b implies rec_id(#[trigger] s1[a])
        != rec_id(#[trigger] s1[b]) by {
        assert(rec_id(s1[a]) == rec_id(s[a]));
        assert(rec_id(s1[b]) == rec_id(s[b]));
    }
}

/// Unique identifiers survive removing one record.
pub proof fn lemma_unique_ids_remove(s: Seq<InvestmentView>, i: int)
    requires
        unique_ids(s),
        0 <= i < s.len(),
    ensures
        unique_ids(s.remove(i)),
{
    let s1 = s.remove(i);
    assert forall|a: int, b: int|
        0 <= a < s1.len() && 0 <= b < s1.len() && a != b implies rec_id(#[trigger] s1[a])
        != rec_id(#[trigger] s1[b]) by {
        let a0: int = if a < i {
            a
        } else {
            a + 1
        };
        let b0: int = if b < i {
            b
        } else {
            b + 1
        };
        assert(s1[a] == s[a0]);
        assert(s1[b] == s[b0]);
        assert(rec_id(s[a0]) != rec_id(s[b0]));
    }
}

/// Unique identifiers survive appending a record whose identifier is not
/// yet present.
pub proof fn lemma_unique_ids_push(s: Seq<InvestmentView>, r: InvestmentView)
    requires
        unique_ids(s),
        all_have_ids(s),
        has_id(r),
        !contains_id(s, rec_id(r)),
    ensures
        unique_ids(s.push(r)),
{
    let s1 = s.push(r);
    assert forall|a: int, b: int|
        0 <= a < s1.len() && 0 <= b < s1.len() && a != b implies rec_id(#[trigger] s1[a])
        != rec_id(#[trigger] s1[b]) by {
        if a < s.len() && b < s.len() {
            assert(rec_id(s[a]) != rec_id(s[b]));
        } else if a < s.len() {
            assert(s1[b] == r);
            if rec_id(s[a]) == rec_id(r) {
                assert(contains_id(s, rec_id(r)));
            }
        } else {
            assert(s1[a] == r);
            if rec_id(s[b]) == rec_id(r) {
                assert(contains_id(s, rec_id(r)));
            }
        }
    }
}

/// A record just created is read back unchanged: after appending a record
/// whose identifier was absent, looking that identifier up yields exactly
/// the appended record.
pub proof fn lemma_read_after_create(s: Seq<InvestmentView>, created: InvestmentView)
    requires
        has_id(created),
        !contains_id(s, rec_id(created)),
    ensures
        contains_id(s.push(created), rec_id(created)),
        index_of_id(s.push(created), rec_id(created)) == s.len(),
        s.push(created)[index_of_id(s.push(created), rec_id(created))] == created,
{
    let s1 = s.push(created);
    assert(s1[s.len() as int] == created);
    assert(contains_id(s1, rec_id(created)));
    let w = index_of_id(s1, rec_id(created));
    assert(0 <= w < s1.len() && has_id(s1[w]) && rec_id(s1[w]) == rec_id(created));
    if w < s.len() {
        assert(s1[w] == s[w]);
        assert(contains_id(s, rec_id(created)));
    }
}

/// The record an update leaves in the store: the patch's client-settable
/// fields replace the stored ones wholesale; the identifier and
/// `created_at` are kept, `updated_at` is refreshed.
pub open spec fn merge_view(stored: InvestmentView, p: InvestmentPatchView, now: i64) -> InvestmentView {
    InvestmentView {
        id: stored.id,
        inv_name: p.inv_name,
        name: p.name,
        inv_type: p.inv_type,
        return_type: p.return_type,
        inv_amount: p.inv_amount,
        return_amount: p.return_amount,
        return_rate: p.return_rate,
        start_date: p.start_date,
        end_date: p.end_date,
        created_at: stored.created_at,
        updated_at: Some(now),
    }
}

/// Merging the same patch twice yields the record the first merge yields.
pub proof fn lemma_merge_idempotent(stored: InvestmentView, p: InvestmentPatchView, now: i64)
    ensures
        merge_view(merge_view(stored, p, now), p, now) == merge_view(stored, p, now),
{
    assert(merge_view(merge_view(stored, p, now), p, now) =~= merge_view(stored, p, now));
}

/// Applying the same update twice leaves the store exactly as applying it
/// once: the merged record sits at the same position and merging it again
/// with the same patch changes nothing.
pub proof fn lemma_update_idempotent(s: Seq<InvestmentView>, p: InvestmentPatchView, now: i64)
    requires
        unique_ids(s),
        contains_id(s, p.id),
    ensures
        ({
            let i = index_of_id(s, p.id);
            let s1 = s.update(i, merge_view(s[i], p, now));
            &&& contains_id(s1, p.id)
            &&& index_of_id(s1, p.id) == i
            &&& s1.update(i, merge_view(s1[i], p, now)) == s1
        }),
{
    let i = index_of_id(s, p.id);
    let m = merge_view(s[i], p, now);
    let s1 = s.update(i, m);
    assert(rec_id(m) == rec_id(s[i]));
    lemma_unique_ids_update(s, i, m);
    lemma_index_of_id_unique(s1, p.id, i);
    lemma_merge_idempotent(s[i], p, now);
    assert(s1.update(i, merge_view(s1[i], p, now)) =~= s1);
}

/// The nine client-settable fields agree.
pub open spec fn same_client_fields(a: InvestmentView, b: InvestmentView) -> bool {
    &&& a.inv_name == b.inv_name
    &&& a.name == b.name
    &&& a.inv_type == b.inv_type
    &&& a.return_type == b.return_type
    &&& a.inv_amount == b.inv_amount
    &&& a.return_amount == b.return_amount
    &&& a.return_rate == b.return_rate
    &&& a.start_date == b.start_date
    &&& a.end_date == b.end_date
}

pub(crate) fn find_by_id(records: &Vec<Investment>, id: &String) -> (r: Option<usize>)
    ensures
        match r {
            Some(i) => 0 <= i < records@.len() && has_id(records@[i as int]@) && rec_id(
                records@[i as int]@,
            ) == id@,
            None => forall|j: int|
                0 <= j < records@.len() ==> !(has_id(#[trigger] records@[j]@) && rec_id(
                    records@[j]@,
                ) == id@),
        },
{
    let mut i: usize = 0;
    while i < records.len()
        invariant
            0 <= i <= records@.len(),
            forall|j: int|
                0 <= j < i ==> !(has_id(#[trigger] records@[j]@) && rec_id(records@[j]@) == id@),
        decreases records@.len() - i,
    {
        match &records[i].id {
            Some(s) => {
                if *s == *id {
                    return Some(i);
                }
            },
            None => {},
        }
        i = i + 1;
    }
    None
}

/// The collection of persisted records, with the counter that mints
/// identifiers.
pub struct InvestmentStore {
    records: Vec<Investment>,
    next_id: u64,
}

impl InvestmentStore {
    /// The stored records, in insertion order.
    pub closed spec fn recs(self) -> Seq<InvestmentView> {
        Seq::new(self.records@.len(), |i: int| self.records@[i]@)
    }

    /// How many identifiers have been assigned so far.
    pub closed spec fn ids_assigned(self) -> nat {
        self.next_id as nat
    }

    /// Well-formedness: every record carries an identifier, identifiers are
    /// unique, and each one is a numeral the counter has already passed.
    pub closed spec fn wf(self) -> bool {
        &&& all_have_ids(self.recs())
        &&& unique_ids(self.recs())
        &&& forall|i: int|
            0 <= i < self.recs().len() ==> exists|k: nat|
                k < self.next_id && rec_id(#[trigger] self.recs()[i]) == decimal_of(k)
    }

    /// What a well-formed store guarantees of its records.
    pub proof fn lemma_wf_ids(self)
        requires
            self.wf(),
        ensures
            all_have_ids(self.recs()),
            unique_ids(self.recs()),
    {
    }

    /// Whether the counter can still mint an identifier — the one machine
    /// limit a caller of `create` must respect.
    pub fn can_assign_id(&self) -> (r: bool)
        ensures
            r == (self.ids_assigned() < u64::MAX),
    {
        self.next_id < u64::MAX
    }

    /// An empty store.
    pub fn new() -> (r: InvestmentStore)
        ensures
            r.wf(),
            r.recs() == Seq::<InvestmentView>::empty(),
            r.ids_assigned() == 0,
    {
        let r = InvestmentStore { records: Vec::new(), next_id: 0 };
        proof {
            assert(r.recs() =~= Seq::<InvestmentView>::empty());
        }
        r
    }

    /// Persists a candidate record. A candidate already carrying an
    /// identifier is rejected as `InvalidArgument`; otherwise a fresh
    /// identifier and the timestamps are assigned and the persisted record
    /// is returned in full, appended to the stored collection.
    pub fn create(&mut self, candidate: Investment, now: i64) -> (r: Result<
        Investment,
        StoreError,
    >)
        requires
            old(self).wf(),
            old(self).ids_assigned() < u64::MAX,
        ensures
            final(self).wf(),
            r is Err <==> candidate@.id is Some,
            match r {
                Ok(created) => {
                    &&& created@.id is Some
                    &&& !contains_id(old(self).recs(), rec_id(created@))
                    &&& created@.created_at == Some(now)
                    &&& created@.updated_at == Some(now)
                    &&& same_client_fields(created@, candidate@)
                    &&& final(self).recs() == old(self).recs().push(created@)
                    &&& final(self).ids_assigned() == old(self).ids_assigned() + 1
                },
                Err(e) => {
                    &&& e == StoreError::InvalidArgument
                    &&& *final(self) == *old(self)
                },
            },
    {
        if candidate.id.is_some() {
            return Err(StoreError::InvalidArgument);
        }
        let id_string = u64_to_string(self.next_id);
        let created = Investment {
            id: Some(id_string),
            inv_name: candidate.inv_name,
            name: candidate.name,
            inv_type: candidate.inv_type,
            return_type: candidate.return_type,
            inv_amount: candidate.inv_amount,
            return_amount: candidate.return_amount,
            return_rate: candidate.return_rate,
            start_date: candidate.start_date,
            end_date: candidate.end_date,
            created_at: Some(now),
            updated_at: Some(now),
        };
        let result = created.clone();
        proof {
            let s = self.recs();
            let n = self.next_id as nat;
            assert forall|i: int| 0 <= i < s.len() implies rec_id(#[trigger] s[i]) != decimal_of(
                n,
            ) by {
                let k = choose|k: nat| k < self.next_id && rec_id(s[i]) == decimal_of(k);
                if rec_id(s[i]) == decimal_of(n) {
                    lemma_decimal_of_injective(k, n);
                }
            }
            assert(!contains_id(s, created@.id->0));
        }
        let ghost old_self = *self;
        self.records.push(created);
        self.next_id = self.next_id + 1;
        proof {
            assert(self.recs() =~= old_self.recs().push(result@));
            let s1 = self.recs();
            let s = old_self.recs();
            assert(rec_id(result@) == decimal_of(old_self.next_id as nat));
            assert forall|i: int| 0 <= i < s1.len() implies exists|k: nat|
                k < self.next_id && rec_id(#[trigger] s1[i]) == decimal_of(k) by {
                if i < s.len() {
                    let k = choose|k: nat| k < old_self.next_id && rec_id(s[i]) == decimal_of(k);
                    assert(k < self.next_id && rec_id(s1[i]) == decimal_of(k));
                } else {
                    let k = old_self.next_id as nat;
                    assert(k < self.next_id && rec_id(s1[i]) == decimal_of(k));
                }
            }
            lemma_unique_ids_push(s, result@);
        }
        Ok(result)
    }

    /// Looks a record up by identifier; `NotFound` when no record carries
    /// it.
    pub fn read(&self, id: &String) -> (r: Result<Investment, StoreError>)
        requires
            self.wf(),
        ensures
            r is Ok <==> contains_id(self.recs(), id@),
            match r {
                Ok(rec) => rec@ == self.recs()[index_of_id(self.recs(), id@)],
                Err(e) => e == StoreError::NotFound,
            },
    {
        match find_by_id(&self.records, id) {
            Some(i) => {
                let rec = self.records[i].clone();
                proof {
                    lemma_index_of_id_unique(self.recs(), id@, i as int);
                }
                Ok(rec)
            },
            None => {
                proof {
                    assert(!contains_id(self.recs(), id@));
                }
                Err(StoreError::NotFound)
            },
        }
    }

    /// Applies a patch to the record its identifier names: the stored
    /// record is replaced by the merge, in place, and the merged record is
    /// returned. `NotFound` when the identifier is unknown, and then the
    /// store is untouched.
    pub fn update(&mut self, patch: &InvestmentPatch, now: i64) -> (r: Result<
        Investment,
        StoreError,
    >)
        requires
            old(self).wf(),
        ensures
            final(self).wf(),
            final(self).ids_assigned() == old(self).ids_assigned(),
            r is Ok <==> contains_id(old(self).recs(), patch@.id),
            match r {
                Ok(rec) => {
                    &&& rec@ == merge_view(
                        old(self).recs()[index_of_id(old(self).recs(), patch@.id)],
                        patch@,
                        now,
                    )
                    &&& final(self).recs() == old(self).recs().update(
                        index_of_id(old(self).recs(), patch@.id),
                        rec@,
                    )
                },
                Err(e) => {
                    &&& e == StoreError::NotFound
                    &&& *final(self) == *old(self)
                },
            },
    {
        match find_by_id(&self.records, &patch.id) {
            Some(i) => {
                proof {
                    lemma_index_of_id_unique(self.recs(), patch@.id, i as int);
                }
                let stored_created_at = self.records[i].created_at;
                let merged = Investment {
                    id: Some(patch.id.clone()),
                    inv_name: patch.inv_name.clone(),
                    name: patch.name.clone(),
                    inv_type: patch.inv_type.clone(),
                    return_type: patch.return_type.clone(),
                    inv_amount: patch.inv_amount,
                    return_amount: patch.return_amount,
                    return_rate: patch.return_rate,
                    start_date: patch.start_date,
                    end_date: patch.end_date,
                    created_at: stored_created_at,
                    updated_at: Some(now),
                };
                let result = merged.clone();
                let ghost old_self = *self;
                proof {
                    assert(merged@ =~= merge_view(
                        old_self.recs()[i as int],
                        patch@,
                        now,
                    ));
                }
                self.records.remove(i);
                self.records.insert(i, merged);
                proof {
                    let s = old_self.recs();
                    let s1 = self.recs();
                    let m = merge_view(s[i as int], patch@, now);
                    assert(s1 =~= s.update(i as int, m));
                    assert(rec_id(m) == rec_id(s[i as int]));
                    lemma_unique_ids_update(s, i as int, m);
                    assert forall|a: int| 0 <= a < s1.len() implies exists|k: nat|
                        k < self.next_id && rec_id(#[trigger] s1[a]) == decimal_of(k) by {
                        let k = choose|k: nat| k < old_self.next_id && rec_id(s[a]) == decimal_of(k);
                        assert(rec_id(s1[a]) == rec_id(s[a]));
                        assert(k < self.next_id && rec_id(s1[a]) == decimal_of(k));
                    }
                }
                Ok(result)
            },
            None => {
                proof {
                    assert(!contains_id(self.recs(), patch@.id));
                }
                Err(StoreError::NotFound)
            },
        }
    }

    /// Removes the record an identifier names, reporting how many records
    /// that affected. Deleting an unknown identifier affects zero records
    /// and is no error; afterwards the identifier is absent either way, so
    /// a repeated delete affects zero records.
    pub fn delete(&mut self, id: &String) -> (r: AffectedRows)
        requires
            old(self).wf(),
        ensures
            final(self).wf(),
            final(self).ids_assigned() == old(self).ids_assigned(),
            !contains_id(final(self).recs(), id@),
            contains_id(old(self).recs(), id@) ==> r.rows_affected == 1 && final(self).recs() == old(
                self,
            ).recs().remove(index_of_id(old(self).recs(), id@)),
            !contains_id(old(self).recs(), id@) ==> r.rows_affected == 0 && *final(self) == *old(self),
    {
        match find_by_id(&self.records, id) {
            Some(i) => {
                proof {
                    lemma_index_of_id_unique(self.recs(), id@, i as int);
                }
                let ghost old_self = *self;
                self.records.remove(i);
                proof {
                    let s = old_self.recs();
                    let s1 = self.recs();
                    assert(s1 =~= s.remove(i as int));
                    lemma_remove_id_absent(s, id@);
                    lemma_unique_ids_remove(s, i as int);
                    assert forall|a: int| 0 <= a < s1.len() implies exists|k: nat|
                        k < self.next_id && rec_id(#[trigger] s1[a]) == decimal_of(k) by {
                        let a0: int = if a < i { a } else { a + 1 };
                        assert(s1[a] == s[a0]);
                        let k = choose|k: nat|
                            k < old_self.next_id && rec_id(s[a0]) == decimal_of(k);
                        assert(k < self.next_id && rec_id(s1[a]) == decimal_of(k));
                    }
                }
                AffectedRows { rows_affected: 1 }
            },
            None => {
                proof {
                    assert(!contains_id(self.recs(), id@));
                }
                AffectedRows { rows_affected: 0 }
            },
        }
    }

    /// All records, in insertion order.
    pub fn list_all(&self) -> (r: Vec<Investment>)
        requires
            self.wf(),
        ensures
            r@.len() == self.recs().len(),
            forall|i: int| 0 <= i < r@.len() ==> (#[trigger] r@[i])@ == self.recs()[i],
    {
        let mut out: Vec<Investment> = Vec::new();
        let mut i: usize = 0;
        while i < self.records.len()
            invariant
                0 <= i <= self.records@.len(),
                out@.len() == i,
                forall|j: int| 0 <= j < i ==> (#[trigger] out@[j])@ == self.recs()[j],
            decreases self.records@.len() - i,
        {
            out.push(self.records[i].clone());
            i = i + 1;
        }
        out
    }
}

} // verus!
