use investments::create_inv_form::{CreateInvForm, Msg as CreateMsg};
use investments::digits::parse_u64_or_zero;
use investments::errors::http_status;
use investments::record::Investment;
use investments::renew_inv_form::{Msg as RenewMsg, RenewInvForm};
use investments::u64_to_string;
use investments::validation::{field_message, validate, Field};
use investments::StoreError;

const JAN_1_2024: i64 = 1704067200;
const JAN_1_2025: i64 = 1735689600;

fn filled() -> Investment {
    Investment {
        id: None,
        inv_name: "Car Fund".to_string(),
        name: "Alice".to_string(),
        inv_type: "FD".to_string(),
        return_type: "Ordinary".to_string(),
        inv_amount: 1000,
        return_amount: 1100,
        return_rate: 10,
        start_date: Some(JAN_1_2024),
        end_date: Some(JAN_1_2025),
        created_at: None,
        updated_at: None,
    }
}

#[test]
fn validation_reports_every_missing_field() {
    let blank = Investment {
        id: None,
        inv_name: String::new(),
        name: String::new(),
        inv_type: String::new(),
        return_type: String::new(),
        inv_amount: 0,
        return_amount: 0,
        return_rate: 0,
        start_date: None,
        end_date: None,
        created_at: None,
        updated_at: None,
    };
    let violated = validate(&blank);
    assert_eq!(
        violated,
        vec![
            Field::InvName,
            Field::Name,
            Field::InvType,
            Field::ReturnType,
            Field::InvAmount,
            Field::ReturnAmount,
            Field::ReturnRate,
            Field::StartDate,
            Field::EndDate,
        ]
    );
}

#[test]
fn validation_reports_only_the_violated_fields() {
    let mut candidate = filled();
    candidate.name = String::new();
    candidate.return_rate = 0;
    candidate.end_date = None;
    let violated = validate(&candidate);
    assert_eq!(violated, vec![Field::Name, Field::ReturnRate, Field::EndDate]);
}

#[test]
fn validation_accepts_any_magnitudes() {
    let mut candidate = filled();
    candidate.inv_amount = 1;
    candidate.return_amount = u64::MAX;
    candidate.return_rate = 999;
    assert!(validate(&candidate).is_empty());
}

#[test]
fn field_messages_match_the_form_labels() {
    assert_eq!(field_message(Field::InvName), "Investment Name can not be blank");
    assert_eq!(field_message(Field::Name), "Name can not be blank");
    assert_eq!(field_message(Field::InvType), "Investment Type can not be blank");
    assert_eq!(field_message(Field::ReturnType), "Return Type can not be blank");
    assert_eq!(field_message(Field::InvAmount), "Investment Amount can not be blank");
    assert_eq!(field_message(Field::ReturnAmount), "Return Amount can not be blank");
    assert_eq!(field_message(Field::ReturnRate), "Return Rate can not be blank");
    assert_eq!(field_message(Field::StartDate), "Start Date can not be blank");
    assert_eq!(field_message(Field::EndDate), "End Date can not be blank");
}

#[test]
fn create_form_emits_only_valid_candidates() {
    let mut form = CreateInvForm::new();

    // Submitting the blank form reports every field and emits nothing.
    assert!(form.update(CreateMsg::SaveForm).is_none());
    assert_eq!(form.errors().len(), 9);

    // Each edit fills its field and clears exactly its own mark.
    assert!(form
        .update(CreateMsg::SaveAndValidate(Field::InvName, "Car Fund".to_string()))
        .is_none());
    assert_eq!(form.errors().len(), 8);
    assert!(!form.errors().contains(&Field::InvName));
    assert!(form.errors().contains(&Field::Name));

    form.update(CreateMsg::SaveAndValidate(Field::Name, "Alice".to_string()));
    form.update(CreateMsg::SaveAndValidate(Field::InvType, "FD".to_string()));
    form.update(CreateMsg::SaveAndValidate(Field::ReturnType, "Ordinary".to_string()));
    form.update(CreateMsg::SaveAndValidate(Field::InvAmount, "1000".to_string()));
    form.update(CreateMsg::SaveAndValidate(Field::ReturnAmount, "1100".to_string()));
    form.update(CreateMsg::SaveAndValidate(Field::ReturnRate, "10".to_string()));
    form.update(CreateMsg::SaveAndValidateDate(Field::StartDate, Some(JAN_1_2024)));
    form.update(CreateMsg::SaveAndValidateDate(Field::EndDate, Some(JAN_1_2025)));
    assert!(form.errors().is_empty());

    // A valid submission emits the candidate and blanks the form.
    let emitted = form.update(CreateMsg::SaveForm).expect("a valid form must emit");
    assert_eq!(emitted.id, None);
    assert_eq!(emitted.inv_name, "Car Fund");
    assert_eq!(emitted.name, "Alice");
    assert_eq!(emitted.inv_type, "FD");
    assert_eq!(emitted.return_type, "Ordinary");
    assert_eq!(emitted.inv_amount, 1000);
    assert_eq!(emitted.return_amount, 1100);
    assert_eq!(emitted.return_rate, 10);
    assert_eq!(emitted.start_date, Some(JAN_1_2024));
    assert_eq!(emitted.end_date, Some(JAN_1_2025));
    assert_eq!(form.state().inv_name, "");
    assert_eq!(form.state().inv_amount, 0);
    assert_eq!(form.state().start_date, None);
}

#[test]
fn create_form_reset_clears_fields_not_marks() {
    let mut form = CreateInvForm::new();
    form.update(CreateMsg::SaveForm);
    assert_eq!(form.errors().len(), 9);
    form.update(CreateMsg::SaveAndValidate(Field::InvName, "Car Fund".to_string()));
    assert_eq!(form.errors().len(), 8);
    form.update(CreateMsg::ResetForm);
    assert_eq!(form.state().inv_name, "");
    assert_eq!(form.errors().len(), 8);
}

#[test]
fn create_form_amount_input_follows_numeral_convention() {
    let mut form = CreateInvForm::new();
    form.update(CreateMsg::SaveAndValidate(Field::InvAmount, "1000".to_string()));
    assert_eq!(form.state().inv_amount, 1000);
    form.update(CreateMsg::SaveAndValidate(Field::InvAmount, "not a number".to_string()));
    assert_eq!(form.state().inv_amount, 0);
}

#[test]
fn renew_form_confirmation_flow() {
    let mut record = filled();
    record.id = Some("0".to_string());
    let mut form = RenewInvForm::new(record);
    assert!(!form.form_changed());
    assert!(!form.show_renew_confirmation());

    // An edit marks the form changed.
    assert!(form
        .update(RenewMsg::ValidateAndSave(Field::ReturnAmount, "1200".to_string()))
        .is_none());
    assert!(form.form_changed());
    assert_eq!(form.investment().return_amount, 1200);

    // The renew control only raises the dialog; cancel lowers it.
    form.update(RenewMsg::RenewForm);
    assert!(form.show_renew_confirmation());
    form.update(RenewMsg::CancelRenewForm);
    assert!(!form.show_renew_confirmation());

    // Confirming a valid form emits the edited record.
    form.update(RenewMsg::RenewForm);
    let emitted = form.update(RenewMsg::ConfirmRenewForm).expect("valid renewal must emit");
    assert_eq!(emitted.id, Some("0".to_string()));
    assert_eq!(emitted.return_amount, 1200);
}

#[test]
fn renew_form_rejects_invalid_confirmation() {
    let mut record = filled();
    record.id = Some("0".to_string());
    let mut form = RenewInvForm::new(record);
    form.update(RenewMsg::ValidateAndSave(Field::Name, String::new()));
    form.update(RenewMsg::ValidateDateAndSave(Field::EndDate, None));
    form.update(RenewMsg::RenewForm);
    assert!(form.update(RenewMsg::ConfirmRenewForm).is_none());
    assert_eq!(form.errors(), &vec![Field::Name, Field::EndDate]);

    // Editing a marked field clears exactly its mark.
    form.update(RenewMsg::ValidateAndSave(Field::Name, "Alice".to_string()));
    assert_eq!(form.errors(), &vec![Field::EndDate]);
}

#[test]
fn error_kinds_map_to_distinct_failure_statuses() {
    assert_eq!(http_status(StoreError::NotFound), 404);
    assert_eq!(http_status(StoreError::InvalidArgument), 400);
    assert_eq!(http_status(StoreError::StoreUnavailable), 503);
}

#[test]
fn numerals_format_and_parse() {
    assert_eq!(u64_to_string(0), "0");
    assert_eq!(u64_to_string(7), "7");
    assert_eq!(u64_to_string(10), "10");
    assert_eq!(u64_to_string(12345), "12345");
    assert_eq!(u64_to_string(u64::MAX), "18446744073709551615");

    assert_eq!(parse_u64_or_zero("0"), 0);
    assert_eq!(parse_u64_or_zero("1000"), 1000);
    assert_eq!(parse_u64_or_zero("007"), 7);
    assert_eq!(parse_u64_or_zero("+5"), 5);
    assert_eq!(parse_u64_or_zero(""), 0);
    assert_eq!(parse_u64_or_zero("+"), 0);
    assert_eq!(parse_u64_or_zero("-3"), 0);
    assert_eq!(parse_u64_or_zero("12a"), 0);
    assert_eq!(parse_u64_or_zero("18446744073709551615"), u64::MAX);
    assert_eq!(parse_u64_or_zero("18446744073709551616"), 0);
}
