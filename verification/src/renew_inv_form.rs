//! The renew form: holds the record being renewed (which already carries
//! its identifier), tracks whether anything changed and whether the
//! confirmation dialog is up, and emits the edited record as an update
//! intent only when the user confirms and validation passes.

use vstd::prelude::*;

use crate::dates::{parse_date, spec_parse_date};
use crate::forms::{
    apply_date, apply_input, lemma_apply_date_other, lemma_apply_input_other, set_date, set_input,
};
use crate::record::{Investment, InvestmentView};
use crate::validation::{
    is_valid, lemma_remove_field_exact, lemma_validation_exact, remove_field, remove_field_error,
    validate, violates, violations, Field,
};

verus! {

/// One reaction of the renew form.
pub enum Msg {
    /// A text or number input wrote a value into a field.
    ValidateAndSave(Field, String),
    /// A date picker wrote a date (or cleared one) into a field.
    ValidateDateAndSave(Field, Option<i64>),
    /// The user confirmed the renewal.
    ConfirmRenewForm,
    /// The user dismissed the confirmation dialog.
    CancelRenewForm,
    /// The renew control asked for confirmation.
    RenewForm,
}

/// The renew form's state: the record under edit, whether anything changed,
/// whether the confirmation dialog shows, and the fields currently marked
/// erroneous.
pub struct RenewInvForm {
    investment: Investment,
    form_changed: bool,
    show_renew_confirmation: bool,
    errors: Vec<Field>,
}

impl RenewInvForm {
    /// The record as edited so far.
    pub closed spec fn record(self) -> InvestmentView {
        self.investment@
    }

    /// The fields currently marked erroneous, in checking order.
    pub closed spec fn errors_view(self) -> Seq<Field> {
        self.errors@
    }

    /// Whether any field was edited since the form opened.
    pub closed spec fn changed(self) -> bool {
        self.form_changed
    }

    /// Whether the confirmation dialog shows.
    pub closed spec fn confirming(self) -> bool {
        self.show_renew_confirmation
    }

    /// The record keeps the identifier it came with, and a field is marked
    /// erroneous only while it is in fact violated.
    pub open spec fn wf(self) -> bool {
        &&& self.record().id is Some
        &&& forall|f: Field| self.errors_view().contains(f) ==> violates(self.record(), f)
    }

    /// A form over the record to renew.
    pub fn new(investment: Investment) -> (r: RenewInvForm)
        requires
            investment@.id is Some,
        ensures
            r.wf(),
            r.record() == investment@,
            !r.changed(),
            !r.confirming(),
            r.errors_view() == Seq::<Field>::empty(),
    {
        RenewInvForm {
            investment,
            form_changed: false,
            show_renew_confirmation: false,
            errors: Vec::new(),
        }
    }

    /// The record under edit, for reading.
    pub fn investment(&self) -> (r: &Investment)
        ensures
            r@ == self.record(),
    {
        &self.investment
    }

    /// The marked fields, for reading.
    pub fn errors(&self) -> (r: &Vec<Field>)
        ensures
            r@ == self.errors_view(),
    {
        &self.errors
    }

    /// Whether any field was edited since the form opened.
    pub fn form_changed(&self) -> (r: bool)
        ensures
            r == self.changed(),
    {
        self.form_changed
    }

    /// Whether the confirmation dialog shows.
    pub fn show_renew_confirmation(&self) -> (r: bool)
        ensures
            r == self.confirming(),
    {
        self.show_renew_confirmation
    }

    /// The message a date input's text becomes: the text read as a
    /// calendar date at midnight UTC, any other text clearing the date.
    pub fn date_input(f: Field, text: &str) -> (m: Msg)
        ensures
            m == Msg::ValidateDateAndSave(f, spec_parse_date(text@)),
    {
        Msg::ValidateDateAndSave(f, parse_date(text))
    }

    /// Reacts to one message. Editing writes the field, clears its mark and
    /// marks the form changed; the renew and cancel controls only toggle
    /// the confirmation dialog; a confirmation emits the edited record when
    /// validation passes, and otherwise marks exactly the violated fields
    /// and emits nothing.
    pub fn update(&mut self, msg: Msg) -> (emitted: Option<Investment>)
        requires
            old(self).wf(),
        ensures
            final(self).wf(),
            match msg {
                Msg::ValidateAndSave(f, v) => {
                    &&& emitted is None
                    &&& final(self).record() == apply_input(old(self).record(), f, v@)
                    &&& final(self).errors_view() == remove_field(old(self).errors_view(), f)
                    &&& final(self).changed()
                    &&& final(self).confirming() == old(self).confirming()
                },
                Msg::ValidateDateAndSave(f, d) => {
                    &&& emitted is None
                    &&& final(self).record() == apply_date(old(self).record(), f, d)
                    &&& final(self).errors_view() == remove_field(old(self).errors_view(), f)
                    &&& final(self).changed()
                    &&& final(self).confirming() == old(self).confirming()
                },
                Msg::RenewForm => {
                    &&& emitted is None
                    &&& final(self).record() == old(self).record()
                    &&& final(self).errors_view() == old(self).errors_view()
                    &&& final(self).changed() == old(self).changed()
                    &&& final(self).confirming()
                },
                Msg::CancelRenewForm => {
                    &&& emitted is None
                    &&& final(self).record() == old(self).record()
                    &&& final(self).errors_view() == old(self).errors_view()
                    &&& final(self).changed() == old(self).changed()
                    &&& !final(self).confirming()
                },
                Msg::ConfirmRenewForm => if is_valid(old(self).record()) {
                    &&& emitted matches Some(rec) && rec@ == old(self).record()
                    &&& final(self).record() == old(self).record()
                    &&& final(self).errors_view() == old(self).errors_view()
                    &&& final(self).changed() == old(self).changed()
                    &&& final(self).confirming() == old(self).confirming()
                } else {
                    &&& emitted is None
                    &&& final(self).record() == old(self).record()
                    &&& final(self).errors_view() == violations(old(self).record())
                    &&& final(self).changed() == old(self).changed()
                    &&& final(self).confirming() == old(self).confirming()
                },
            },
    {
        match msg {
            Msg::ValidateAndSave(f, v) => {
                set_input(&mut self.investment, f, v);
                remove_field_error(&mut self.errors, f);
                self.form_changed = true;
                proof {
                    assert forall|g: Field| self.errors@.contains(g) implies violates(
                        self.investment@,
                        g,
                    ) by {
                        lemma_remove_field_exact(old(self).errors@, f, g);
                        lemma_apply_input_other(old(self).record(), f, v@, g);
                    }
                }
                None
            },
            Msg::ValidateDateAndSave(f, d) => {
                set_date(&mut self.investment, f, d);
                remove_field_error(&mut self.errors, f);
                self.form_changed = true;
                proof {
                    assert forall|g: Field| self.errors@.contains(g) implies violates(
                        self.investment@,
                        g,
                    ) by {
                        lemma_remove_field_exact(old(self).errors@, f, g);
                        lemma_apply_date_other(old(self).record(), f, d, g);
                    }
                }
                None
            },
            Msg::RenewForm => {
                self.show_renew_confirmation = true;
                None
            },
            Msg::CancelRenewForm => {
                self.show_renew_confirmation = false;
                None
            },
            Msg::ConfirmRenewForm => {
                let found = validate(&self.investment);
                if found.len() == 0 {
                    Some(self.investment.clone())
                } else {
                    self.errors = found;
                    proof {
                        assert forall|g: Field| self.errors@.contains(g) implies violates(
                            self.investment@,
                            g,
                        ) by {
                            lemma_validation_exact(self.investment@, g);
                        }
                    }
                    None
                }
            },
        }
    }
}

} // verus!
