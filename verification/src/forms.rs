//! What editing one form field does to a candidate record. Both forms
//! share these: a text or number input writes its field (numbers through
//! the numeral convention of the digits module), a date input writes its
//! date, and a reset clears every client-settable field.

use vstd::prelude::*;

use crate::digits::{parse_u64_or_zero, parse_u64_spec};
use crate::record::{Investment, InvestmentView};
use crate::validation::{violates, Field};

verus! {

/// Whether a field is written by a text or number input (rather than a
/// date picker).
pub open spec fn is_value_field(f: Field) -> bool {
    !(f == Field::StartDate || f == Field::EndDate)
}

/// The record after a text or number input wrote `v` into field `f`:
/// labels and kinds take the text itself, amounts its numeral value (zero
/// for anything else), and a date field takes nothing from a text input.
pub open spec fn apply_input(r: InvestmentView, f: Field, v: Seq<char>) -> InvestmentView {
    match f {
        Field::InvName => InvestmentView { inv_name: v, ..r },
        Field::Name => InvestmentView { name: v, ..r },
        Field::InvType => InvestmentView { inv_type: v, ..r },
        Field::ReturnType => InvestmentView { return_type: v, ..r },
        Field::InvAmount => InvestmentView { inv_amount: parse_u64_spec(v), ..r },
        Field::ReturnAmount => InvestmentView { return_amount: parse_u64_spec(v), ..r },
        Field::ReturnRate => InvestmentView { return_rate: parse_u64_spec(v), ..r },
        Field::StartDate => r,
        Field::EndDate => r,
    }
}

/// The record after a date input wrote `d` into field `f`; only the two
/// date fields take anything from a date input.
pub open spec fn apply_date(r: InvestmentView, f: Field, d: Option<i64>) -> InvestmentView {
    match f {
        Field::StartDate => InvestmentView { start_date: d, ..r },
        Field::EndDate => InvestmentView { end_date: d, ..r },
        _ => r,
    }
}

/// The record after a reset: every client-settable field cleared, the
/// store-owned fields and the identifier kept.
pub open spec fn reset_view(r: InvestmentView) -> InvestmentView {
    InvestmentView {
        inv_name: Seq::empty(),
        name: Seq::empty(),
        inv_type: Seq::empty(),
        return_type: Seq::empty(),
        inv_amount: 0,
        return_amount: 0,
        return_rate: 0,
        start_date: None,
        end_date: None,
        ..r
    }
}

/// Editing one field leaves every other field's violation unchanged.
pub proof fn lemma_apply_input_other(r: InvestmentView, f: Field, v: Seq<char>, g: Field)
    requires
        g != f,
    ensures
        violates(apply_input(r, f, v), g) == violates(r, g),
{
}

/// Editing one date leaves every other field's violation unchanged.
pub proof fn lemma_apply_date_other(r: InvestmentView, f: Field, d: Option<i64>, g: Field)
    requires
        g != f,
    ensures
        violates(apply_date(r, f, d), g) == violates(r, g),
{
}

/// A reset record violates every field.
pub proof fn lemma_reset_all_violated(r: InvestmentView, g: Field)
    ensures
        violates(reset_view(r), g),
{
}

/// Writes a text or number input into a record.
pub(crate) fn set_input(rec: &mut Investment, f: Field, v: String)
    ensures
        final(rec)@ == apply_input(old(rec)@, f, v@),
{
    match f {
        Field::InvName => rec.inv_name = v,
        Field::Name => rec.name = v,
        Field::InvType => rec.inv_type = v,
        Field::ReturnType => rec.return_type = v,
        Field::InvAmount => rec.inv_amount = parse_u64_or_zero(v.as_str()),
        Field::ReturnAmount => rec.return_amount = parse_u64_or_zero(v.as_str()),
        Field::ReturnRate => rec.return_rate = parse_u64_or_zero(v.as_str()),
        Field::StartDate => {},
        Field::EndDate => {},
    }
    proof {
        assert(rec@ =~= apply_input(old(rec)@, f, v@));
    }
}

/// Writes a date input into a record.
pub(crate) fn set_date(rec: &mut Investment, f: Field, d: Option<i64>)
    ensures
        final(rec)@ == apply_date(old(rec)@, f, d),
{
    match f {
        Field::StartDate => rec.start_date = d,
        Field::EndDate => rec.end_date = d,
        _ => {},
    }
    proof {
        assert(rec@ =~= apply_date(old(rec)@, f, d));
    }
}

/// Clears every client-settable field of a record.
pub(crate) fn reset_record(rec: &mut Investment)
    ensures
        final(rec)@ == reset_view(old(rec)@),
{
    rec.inv_name = String::new();
    rec.name = String::new();
    rec.inv_type = String::new();
    rec.return_type = String::new();
    rec.inv_amount = 0;
    rec.return_amount = 0;
    rec.return_rate = 0;
    rec.start_date = None;
    rec.end_date = None;
    proof {
        assert(rec@ =~= reset_view(old(rec)@));
    }
}

} // verus!
