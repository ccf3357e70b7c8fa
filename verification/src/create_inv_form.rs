//! The create form: holds the candidate record being typed, marks the
//! fields found violated at the last submission, clears a field's mark the
//! moment that field is edited, and emits the candidate only when it passes
//! validation — a rejected submission never leaves the form.

use vstd::prelude::*;

use crate::dates::{parse_date, spec_parse_date};
use crate::forms::{
    apply_date, apply_input, is_value_field, lemma_apply_date_other, lemma_apply_input_other,
    lemma_reset_all_violated, reset_record, reset_view, set_date, set_input,
};
use crate::record::{empty_investment_view, Investment, InvestmentView};
use crate::validation::{
    is_valid, lemma_remove_field_exact, lemma_validation_exact, remove_field, remove_field_error,
    validate, violates, violations, Field,
};

verus! {

/// One reaction of the create form.
pub enum Msg {
    /// A text or number input wrote a value into a field.
    SaveAndValidate(Field, String),
    /// A date picker wrote a date (or cleared one) into a field.
    SaveAndValidateDate(Field, Option<i64>),
    /// The reset control cleared the form.
    ResetForm,
    /// The save control submitted the form.
    SaveForm,
}

/// The create form's state: the candidate record and the fields currently
/// marked erroneous.
pub struct CreateInvForm {
    state: Investment,
    errors: Vec<Field>,
}

impl CreateInvForm {
    /// The candidate record as edited so far.
    pub closed spec fn record(self) -> InvestmentView {
        self.state@
    }

    /// The fields currently marked erroneous, in checking order.
    pub closed spec fn errors_view(self) -> Seq<Field> {
        self.errors@
    }

    /// The candidate never carries an identifier or store-owned timestamps,
    /// and a field is marked erroneous only while it is in fact violated.
    pub open spec fn wf(self) -> bool {
        &&& self.record().id is None
        &&& self.record().created_at is None
        &&& self.record().updated_at is None
        &&& forall|f: Field| self.errors_view().contains(f) ==> violates(self.record(), f)
    }

    /// A blank form.
    pub fn new() -> (r: CreateInvForm)
        ensures
            r.wf(),
            r.record() == empty_investment_view(),
            r.errors_view() == Seq::<Field>::empty(),
    {
        CreateInvForm { state: Investment::empty(), errors: Vec::new() }
    }

    /// The candidate record, for reading.
    pub fn state(&self) -> (r: &Investment)
        ensures
            r@ == self.record(),
    {
        &self.state
    }

    /// The marked fields, for reading.
    pub fn errors(&self) -> (r: &Vec<Field>)
        ensures
            r@ == self.errors_view(),
    {
        &self.errors
    }

    /// The message a date input's text becomes: the text read as a
    /// calendar date at midnight UTC, any other text clearing the date.
    pub fn date_input(f: Field, text: &str) -> (m: Msg)
        ensures
            m == Msg::SaveAndValidateDate(f, spec_parse_date(text@)),
    {
        Msg::SaveAndValidateDate(f, parse_date(text))
    }

    /// Reacts to one message. Editing a field writes it and clears its
    /// mark; a reset clears the record but keeps the marks; a save emits
    /// the candidate and blanks the form when validation passes, and
    /// otherwise marks exactly the violated fields and emits nothing.
    pub fn update(&mut self, msg: Msg) -> (emitted: Option<Investment>)
        requires
            old(self).wf(),
        ensures
            final(self).wf(),
            match msg {
                Msg::SaveAndValidate(f, v) => {
                    &&& emitted is None
                    &&& final(self).record() == apply_input(old(self).record(), f, v@)
                    &&& final(self).errors_view() == (if is_value_field(f) {
                        remove_field(old(self).errors_view(), f)
                    } else {
                        old(self).errors_view()
                    })
                },
                Msg::SaveAndValidateDate(f, d) => {
                    &&& emitted is None
                    &&& final(self).record() == apply_date(old(self).record(), f, d)
                    &&& final(self).errors_view() == (if !is_value_field(f) {
                        remove_field(old(self).errors_view(), f)
                    } else {
                        old(self).errors_view()
                    })
                },
                Msg::ResetForm => {
                    &&& emitted is None
                    &&& final(self).record() == reset_view(old(self).record())
                    &&& final(self).errors_view() == old(self).errors_view()
                },
                Msg::SaveForm => if is_valid(old(self).record()) {
                    &&& emitted matches Some(rec) && rec@ == old(self).record()
                    &&& final(self).record() == reset_view(old(self).record())
                    &&& final(self).errors_view() == old(self).errors_view()
                } else {
                    &&& emitted is None
                    &&& final(self).record() == old(self).record()
                    &&& final(self).errors_view() == violations(old(self).record())
                },
            },
    {
        match msg {
            Msg::SaveAndValidate(f, v) => {
                let value_field = match f {
                    Field::StartDate | Field::EndDate => false,
                    _ => true,
                };
                if value_field {
                    set_input(&mut self.state, f, v);
                    remove_field_error(&mut self.errors, f);
                }
                proof {
                    assert forall|g: Field| self.errors@.contains(g) implies violates(
                        self.state@,
                        g,
                    ) by {
                        if value_field {
                            lemma_remove_field_exact(old(self).errors@, f, g);
                            lemma_apply_input_other(old(self).record(), f, v@, g);
                        }
                    }
                    assert(self.state@ =~= apply_input(old(self).record(), f, v@));
                }
                None
            },
            Msg::SaveAndValidateDate(f, d) => {
                let date_field = match f {
                    Field::StartDate | Field::EndDate => true,
                    _ => false,
                };
                if date_field {
                    set_date(&mut self.state, f, d);
                    remove_field_error(&mut self.errors, f);
                }
                proof {
                    assert forall|g: Field| self.errors@.contains(g) implies violates(
                        self.state@,
                        g,
                    ) by {
                        if date_field {
                            lemma_remove_field_exact(old(self).errors@, f, g);
                            lemma_apply_date_other(old(self).record(), f, d, g);
                        }
                    }
                    assert(self.state@ =~= apply_date(old(self).record(), f, d));
                }
                None
            },
            Msg::ResetForm => {
                reset_record(&mut self.state);
                proof {
                    assert forall|g: Field| self.errors@.contains(g) implies violates(
                        self.state@,
                        g,
                    ) by {
                        lemma_reset_all_violated(old(self).record(), g);
                    }
                }
                None
            },
            Msg::SaveForm => {
                let found = validate(&self.state);
                if found.len() == 0 {
                    let emitted_rec = self.state.clone();
                    reset_record(&mut self.state);
                    proof {
                        assert forall|g: Field| self.errors@.contains(g) implies violates(
                            self.state@,
                            g,
                        ) by {
                            lemma_reset_all_violated(old(self).record(), g);
                        }
                    }
                    Some(emitted_rec)
                } else {
                    self.errors = found;
                    proof {
                        assert forall|g: Field| self.errors@.contains(g) implies violates(
                            self.state@,
                            g,
                        ) by {
                            lemma_validation_exact(self.state@, g);
                        }
                    }
                    None
                }
            },
        }
    }
}

} // verus!
