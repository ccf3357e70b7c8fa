//! The client state store: the one in-memory ordered collection of
//! investment records the client shows. It exposes exactly the mutations
//! the controller needs; each mutation is total and keeps the collection
//! free of duplicate identifiers, whatever order backend responses arrive
//! in (a later mutation for an identifier wins over the record it finds).

use vstd::prelude::*;

use crate::record::{rec_views, Investment, InvestmentView};
use crate::store::{
    all_have_ids, contains_id, find_by_id, has_id, index_of_id, lemma_index_of_id_unique,
    lemma_remove_id_absent, lemma_unique_ids_push, lemma_unique_ids_remove,
    lemma_unique_ids_update, rec_id, unique_ids,
};

verus! {

/// The ordered collection of records the client shows.
pub struct InvestmentState {
    investments: Vec<Investment>,
}

impl InvestmentState {
    /// The shown records, in order.
    pub closed spec fn recs(self) -> Seq<InvestmentView> {
        rec_views(self.investments@)
    }

    /// The collection never holds two records with one identifier, and
    /// every record carries one.
    pub open spec fn wf(self) -> bool {
        all_have_ids(self.recs()) && unique_ids(self.recs())
    }

    /// The empty collection a client session starts with.
    pub fn new() -> (r: InvestmentState)
        ensures
            r.wf(),
            r.recs() == Seq::<InvestmentView>::empty(),
    {
        let r = InvestmentState { investments: Vec::new() };
        proof {
            assert(r.recs() =~= Seq::<InvestmentView>::empty());
        }
        r
    }

    /// The shown records, for reading.
    pub fn investments(&self) -> (r: &Vec<Investment>)
        ensures
            rec_views(r@) == self.recs(),
    {
        &self.investments
    }

    /// Replaces the whole collection, as the initial load does.
    pub fn replace_all(&mut self, records: Vec<Investment>)
        requires
            all_have_ids(rec_views(records@)),
            unique_ids(rec_views(records@)),
        ensures
            final(self).wf(),
            final(self).recs() == rec_views(records@),
    {
        self.investments = records;
    }

    /// Appends a confirmed record. Should its identifier already be shown
    /// — a later response for the same record — the newer record replaces
    /// the one in place instead, so identifiers stay unique.
    pub fn append(&mut self, record: Investment)
        requires
            old(self).wf(),
            record@.id is Some,
        ensures
            final(self).wf(),
            !contains_id(old(self).recs(), rec_id(record@)) ==> final(self).recs() == old(
                self,
            ).recs().push(record@),
            contains_id(old(self).recs(), rec_id(record@)) ==> final(self).recs() == old(
                self,
            ).recs().update(index_of_id(old(self).recs(), rec_id(record@)), record@),
    {
        let idx = match &record.id {
            Some(s) => find_by_id(&self.investments, s),
            None => None,
        };
        let ghost old_self = *self;
        let ghost rv = record@;
        match idx {
            Some(i) => {
                proof {
                    lemma_index_of_id_unique(self.recs(), rec_id(record@), i as int);
                }
                self.investments.remove(i);
                self.investments.insert(i, record);
                proof {
                    let s = old_self.recs();
                    let s1 = self.recs();
                    assert(s1 =~= s.update(i as int, rv));
                    assert(rec_id(rv) == rec_id(s[i as int]));
                    lemma_unique_ids_update(s, i as int, rv);
                }
            },
            None => {
                proof {
                    assert(!contains_id(self.recs(), rec_id(rv)));
                }
                self.investments.push(record);
                proof {
                    let s = old_self.recs();
                    let s1 = self.recs();
                    assert(s1 =~= s.push(rv));
                    lemma_unique_ids_push(s, rv);
                }
            },
        }
    }

    /// Removes the record an identifier names; absent identifiers are a
    /// no-op. Either way the identifier is not shown afterwards.
    pub fn remove_by_id(&mut self, id: &String)
        requires
            old(self).wf(),
        ensures
            final(self).wf(),
            !contains_id(final(self).recs(), id@),
            contains_id(old(self).recs(), id@) ==> final(self).recs() == old(self).recs().remove(
                index_of_id(old(self).recs(), id@),
            ),
            !contains_id(old(self).recs(), id@) ==> *final(self) == *old(self),
    {
        match find_by_id(&self.investments, id) {
            Some(i) => {
                proof {
                    lemma_index_of_id_unique(self.recs(), id@, i as int);
                }
                let ghost old_self = *self;
                self.investments.remove(i);
                proof {
                    let s = old_self.recs();
                    let s1 = self.recs();
                    assert(s1 =~= s.remove(i as int));
                    lemma_remove_id_absent(s, id@);
                    lemma_unique_ids_remove(s, i as int);
                }
            },
            None => {
                proof {
                    assert(!contains_id(self.recs(), id@));
                }
            },
        }
    }

    /// Replaces the shown record that shares the given record's identifier
    /// — the edit path's commit. An identifier that is not shown leaves the
    /// collection untouched.
    pub fn replace_by_id(&mut self, record: Investment)
        requires
            old(self).wf(),
            record@.id is Some,
        ensures
            final(self).wf(),
            contains_id(old(self).recs(), rec_id(record@)) ==> final(self).recs() == old(
                self,
            ).recs().update(index_of_id(old(self).recs(), rec_id(record@)), record@),
            !contains_id(old(self).recs(), rec_id(record@)) ==> *final(self) == *old(self),
    {
        let idx = match &record.id {
            Some(s) => find_by_id(&self.investments, s),
            None => None,
        };
        let ghost old_self = *self;
        let ghost rv = record@;
        match idx {
            Some(i) => {
                proof {
                    lemma_index_of_id_unique(self.recs(), rec_id(record@), i as int);
                }
                self.investments.remove(i);
                self.investments.insert(i, record);
                proof {
                    let s = old_self.recs();
                    let s1 = self.recs();
                    assert(s1 =~= s.update(i as int, rv));
                    assert(rec_id(rv) == rec_id(s[i as int]));
                    lemma_unique_ids_update(s, i as int, rv);
                }
            },
            None => {
                proof {
                    assert(!contains_id(self.recs(), rec_id(rv)));
                }
            },
        }
    }
}

} // verus!
