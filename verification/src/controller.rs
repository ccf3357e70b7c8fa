//! The client controller: commits the outcome of one backend call into the
//! client state store, and nothing else. The visible collection only ever
//! reflects confirmed backend state — an error, or a delete that affected
//! no record, leaves it untouched. The calls themselves (the network) are
//! made by the surrounding client shell, which hands each outcome here.

use vstd::prelude::*;

use crate::errors::StoreError;
use crate::record::{rec_views, AffectedRows, Investment, InvestmentView};
use crate::state::InvestmentState;
use crate::store::{all_have_ids, contains_id, index_of_id, rec_id, unique_ids};

verus! {

/// Sequences one backend outcome with one state mutation per user intent.
pub struct InvestmentController {
    state: InvestmentState,
}

impl InvestmentController {
    /// The records the client shows.
    pub closed spec fn recs(self) -> Seq<InvestmentView> {
        self.state.recs()
    }

    /// The shown collection never holds two records with one identifier.
    pub closed spec fn wf(self) -> bool {
        self.state.wf()
    }

    /// What a well-formed controller guarantees of the shown records:
    /// every record carries an identifier and no identifier is shown twice.
    pub proof fn lemma_wf_ids(self)
        requires
            self.wf(),
        ensures
            all_have_ids(self.recs()),
            unique_ids(self.recs()),
    {
    }

    /// A controller over an empty collection, as at client startup.
    pub fn new() -> (r: InvestmentController)
        ensures
            r.wf(),
            r.recs() == Seq::<InvestmentView>::empty(),
    {
        InvestmentController { state: InvestmentState::new() }
    }

    /// The shown records, for reading.
    pub fn investments(&self) -> (r: &Vec<Investment>)
        ensures
            rec_views(r@) == self.recs(),
    {
        self.state.investments()
    }

    /// Commits the outcome of the startup list call: a successful listing
    /// replaces the whole collection; an error leaves it untouched.
    pub fn init_investments(&mut self, outcome: Result<Vec<Investment>, StoreError>)
        requires
            old(self).wf(),
            outcome matches Ok(rs) ==> all_have_ids(rec_views(rs@)) && unique_ids(rec_views(rs@)),
        ensures
            final(self).wf(),
            match outcome {
                Ok(rs) => final(self).recs() == rec_views(rs@),
                Err(_) => *final(self) == *old(self),
            },
    {
        match outcome {
            Ok(rs) => self.state.replace_all(rs),
            Err(_) => {},
        }
    }

    /// Commits the outcome of a create call: the server-assigned record is
    /// appended on success; an error changes nothing.
    pub fn create_investment(&mut self, outcome: Result<Investment, StoreError>)
        requires
            old(self).wf(),
            outcome matches Ok(rec) ==> rec@.id is Some,
        ensures
            final(self).wf(),
            match outcome {
                Ok(rec) => {
                    &&& !contains_id(old(self).recs(), rec_id(rec@)) ==> final(self).recs() == old(self).recs().push(rec@)
                    &&& contains_id(old(self).recs(), rec_id(rec@)) ==> final(self).recs() == old(self).recs().update(index_of_id(old(self).recs(), rec_id(rec@)), rec@)
                },
                Err(_) => *final(self) == *old(self),
            },
    {
        match outcome {
            Ok(rec) => self.state.append(rec),
            Err(_) => {},
        }
    }

    /// Commits the outcome of a delete call: the record is removed only
    /// when the backend confirms a record was affected; an affected count
    /// of zero, or an error, changes nothing.
    pub fn delete_investment(&mut self, id: &String, outcome: Result<AffectedRows, StoreError>)
        requires
            old(self).wf(),
        ensures
            final(self).wf(),
            match outcome {
                Ok(a) => {
                    &&& a.rows_affected >= 1 ==> !contains_id(final(self).recs(), id@)
                    &&& a.rows_affected >= 1 && contains_id(old(self).recs(), id@) ==> final(self).recs() == old(self).recs().remove(index_of_id(old(self).recs(), id@))
                    &&& a.rows_affected >= 1 && !contains_id(old(self).recs(), id@) ==> *final(self)
                        == *old(self)
                    &&& a.rows_affected == 0 ==> *final(self) == *old(self)
                },
                Err(_) => *final(self) == *old(self),
            },
    {
        match outcome {
            Ok(a) => {
                if a.rows_affected >= 1 {
                    self.state.remove_by_id(id);
                }
            },
            Err(_) => {},
        }
    }

    /// Commits the outcome of an update call: the merged record the backend
    /// returned replaces the shown record with its identifier; an error
    /// changes nothing.
    pub fn edit_investment(&mut self, outcome: Result<Investment, StoreError>)
        requires
            old(self).wf(),
            outcome matches Ok(rec) ==> rec@.id is Some,
        ensures
            final(self).wf(),
            match outcome {
                Ok(rec) => {
                    &&& contains_id(old(self).recs(), rec_id(rec@)) ==> final(self).recs() == old(self).recs().update(index_of_id(old(self).recs(), rec_id(rec@)), rec@)
                    &&& !contains_id(old(self).recs(), rec_id(rec@)) ==> *final(self) == *old(self)
                },
                Err(_) => *final(self) == *old(self),
            },
    {
        match outcome {
            Ok(rec) => self.state.replace_by_id(rec),
            Err(_) => {},
        }
    }
}

} // verus!
