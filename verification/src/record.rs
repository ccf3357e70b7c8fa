//! The canonical entity: an investment record, the patch shape used for
//! updates, and the affected-rows count a delete reports.
//!
//! Dates are date-only values carried as seconds since the Unix epoch
//! (midnight UTC); `created_at` and `updated_at` are owned by the store and
//! never set by a client.

use vstd::prelude::*;

verus! {

/// One investment record. `id` is absent before first persistence and
/// assigned by the store at creation, immutable thereafter.
pub struct Investment {
    pub id: Option<String>,
    pub inv_name: String,
    pub name: String,
    pub inv_type: String,
    pub return_type: String,
    pub inv_amount: u64,
    pub return_amount: u64,
    pub return_rate: u64,
    pub start_date: Option<i64>,
    pub end_date: Option<i64>,
    pub created_at: Option<i64>,
    pub updated_at: Option<i64>,
}

/// The mathematical value of an `Investment`: strings as character
/// sequences, everything else as plain values.
#[verifier::ext_equal]
pub ghost struct InvestmentView {
    pub id: Option<Seq<char>>,
    pub inv_name: Seq<char>,
    pub name: Seq<char>,
    pub inv_type: Seq<char>,
    pub return_type: Seq<char>,
    pub inv_amount: u64,
    pub return_amount: u64,
    pub return_rate: u64,
    pub start_date: Option<i64>,
    pub end_date: Option<i64>,
    pub created_at: Option<i64>,
    pub updated_at: Option<i64>,
}

pub open spec fn opt_str_view(o: Option<String>) -> Option<Seq<char>> {
    match o {
        Some(s) => Some(s@),
        None => None,
    }
}

impl View for Investment {
    type V = InvestmentView;

    open spec fn view(&self) -> InvestmentView {
        InvestmentView {
            id: opt_str_view(self.id),
            inv_name: self.inv_name@,
            name: self.name@,
            inv_type: self.inv_type@,
            return_type: self.return_type@,
            inv_amount: self.inv_amount,
            return_amount: self.return_amount,
            return_rate: self.return_rate,
            start_date: self.start_date,
            end_date: self.end_date,
            created_at: self.created_at,
            updated_at: self.updated_at,
        }
    }
}

fn clone_opt_string(o: &Option<String>) -> (r: Option<String>)
    ensures
        r == *o,
{
    match o {
        Some(s) => Some(s.clone()),
        None => None,
    }
}

impl Clone for Investment {
    fn clone(&self) -> (r: Self)
        ensures
            r == *self,
    {
        Investment {
            id: clone_opt_string(&self.id),
            inv_name: self.inv_name.clone(),
            name: self.name.clone(),
            inv_type: self.inv_type.clone(),
            return_type: self.return_type.clone(),
            inv_amount: self.inv_amount,
            return_amount: self.return_amount,
            return_rate: self.return_rate,
            start_date: self.start_date,
            end_date: self.end_date,
            created_at: self.created_at,
            updated_at: self.updated_at,
        }
    }
}

/// The view of the record the create form starts from and resets to:
/// no identifier, empty labels, zero amounts, no dates.
pub open spec fn empty_investment_view() -> InvestmentView {
    InvestmentView {
        id: None,
        inv_name: Seq::empty(),
        name: Seq::empty(),
        inv_type: Seq::empty(),
        return_type: Seq::empty(),
        inv_amount: 0,
        return_amount: 0,
        return_rate: 0,
        start_date: None,
        end_date: None,
        created_at: None,
        updated_at: None,
    }
}

impl Investment {
    /// A blank candidate record.
    pub fn empty() -> (r: Investment)
        ensures
            r@ == empty_investment_view(),
    {
        let r = Investment {
            id: None,
            inv_name: String::new(),
            name: String::new(),
            inv_type: String::new(),
            return_type: String::new(),
            inv_amount: 0,
            return_amount: 0,
            return_rate: 0,
            start_date: None,
            end_date: None,
            created_at: None,
            updated_at: None,
        };
        proof {
            assert(r@ =~= empty_investment_view());
        }
        r
    }
}

/// The payload of an update: the full client-settable shape keyed by a
/// mandatory identifier. Updates are whole-record replacements — the store
/// keeps only `created_at` and refreshes `updated_at` itself.
pub struct InvestmentPatch {
    pub id: String,
    pub inv_name: String,
    pub name: String,
    pub inv_type: String,
    pub return_type: String,
    pub inv_amount: u64,
    pub return_amount: u64,
    pub return_rate: u64,
    pub start_date: Option<i64>,
    pub end_date: Option<i64>,
}

/// The mathematical value of an `InvestmentPatch`.
#[verifier::ext_equal]
pub ghost struct InvestmentPatchView {
    pub id: Seq<char>,
    pub inv_name: Seq<char>,
    pub name: Seq<char>,
    pub inv_type: Seq<char>,
    pub return_type: Seq<char>,
    pub inv_amount: u64,
    pub return_amount: u64,
    pub return_rate: u64,
    pub start_date: Option<i64>,
    pub end_date: Option<i64>,
}

impl View for InvestmentPatch {
    type V = InvestmentPatchView;

    open spec fn view(&self) -> InvestmentPatchView {
        InvestmentPatchView {
            id: self.id@,
            inv_name: self.inv_name@,
            name: self.name@,
            inv_type: self.inv_type@,
            return_type: self.return_type@,
            inv_amount: self.inv_amount,
            return_amount: self.return_amount,
            return_rate: self.return_rate,
            start_date: self.start_date,
            end_date: self.end_date,
        }
    }
}

impl Clone for InvestmentPatch {
    fn clone(&self) -> (r: Self)
        ensures
            r == *self,
    {
        InvestmentPatch {
            id: self.id.clone(),
            inv_name: self.inv_name.clone(),
            name: self.name.clone(),
            inv_type: self.inv_type.clone(),
            return_type: self.return_type.clone(),
            inv_amount: self.inv_amount,
            return_amount: self.return_amount,
            return_rate: self.return_rate,
            start_date: self.start_date,
            end_date: self.end_date,
        }
    }
}

/// Whether a patch carries exactly a record's identifier and
/// client-settable fields.
pub open spec fn patch_matches_record(p: InvestmentPatchView, r: InvestmentView) -> bool {
    &&& r.id == Some(p.id)
    &&& p.inv_name == r.inv_name
    &&& p.name == r.name
    &&& p.inv_type == r.inv_type
    &&& p.return_type == r.return_type
    &&& p.inv_amount == r.inv_amount
    &&& p.return_amount == r.return_amount
    &&& p.return_rate == r.return_rate
    &&& p.start_date == r.start_date
    &&& p.end_date == r.end_date
}

impl Investment {
    /// The update payload that renews this record: its identifier and
    /// client-settable fields, as the edit intent sends them.
    pub fn to_patch(&self) -> (p: InvestmentPatch)
        requires
            self@.id is Some,
        ensures
            patch_matches_record(p@, self@),
    {
        let id = match &self.id {
            Some(s) => s.clone(),
            None => String::new(),
        };
        InvestmentPatch {
            id,
            inv_name: self.inv_name.clone(),
            name: self.name.clone(),
            inv_type: self.inv_type.clone(),
            return_type: self.return_type.clone(),
            inv_amount: self.inv_amount,
            return_amount: self.return_amount,
            return_rate: self.return_rate,
            start_date: self.start_date,
            end_date: self.end_date,
        }
    }
}

/// The views of a sequence of records, position by position.
pub open spec fn rec_views(rs: Seq<Investment>) -> Seq<InvestmentView> {
    Seq::new(rs.len(), |i: int| rs[i]@)
}

/// How many records a delete removed: one when the identifier existed,
/// zero when it did not.
#[derive(PartialEq, Eq, Structural, Clone, Copy, Debug)]
pub struct AffectedRows {
    pub rows_affected: u64,
}

} // verus!
