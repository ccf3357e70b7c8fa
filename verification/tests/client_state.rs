use investments::controller::InvestmentController;
use investments::record::{AffectedRows, Investment};
use investments::state::InvestmentState;
use investments::store::InvestmentStore;
use investments::StoreError;

const CREATE_TIME: i64 = 1710000000;
const UPDATE_TIME: i64 = 1720000000;

fn sample(label: &str) -> Investment {
    Investment {
        id: None,
        inv_name: label.to_string(),
        name: "Alice".to_string(),
        inv_type: "FD".to_string(),
        return_type: "Ordinary".to_string(),
        inv_amount: 1000,
        return_amount: 1100,
        return_rate: 10,
        start_date: Some(1704067200),
        end_date: Some(1735689600),
        created_at: None,
        updated_at: None,
    }
}

fn ids_of(records: &Vec<Investment>) -> Vec<String> {
    records.iter().map(|r| r.id.clone().unwrap()).collect()
}

fn assert_no_duplicate_ids(records: &Vec<Investment>) {
    let ids = ids_of(records);
    for i in 0..ids.len() {
        for j in 0..ids.len() {
            if i != j {
                assert_ne!(ids[i], ids[j], "duplicate identifier shown");
            }
        }
    }
}

#[test]
fn init_replaces_collection_and_error_leaves_it() {
    let mut store = InvestmentStore::new();
    store.create(sample("one"), CREATE_TIME).unwrap();
    store.create(sample("two"), CREATE_TIME).unwrap();

    let mut controller = InvestmentController::new();
    controller.init_investments(Ok(store.list_all()));
    assert_eq!(controller.investments().len(), 2);

    controller.init_investments(Err(StoreError::StoreUnavailable));
    assert_eq!(controller.investments().len(), 2);
}

#[test]
fn create_outcome_appends_only_on_success() {
    let mut store = InvestmentStore::new();
    let mut controller = InvestmentController::new();

    let created = store.create(sample("one"), CREATE_TIME).unwrap();
    controller.create_investment(Ok(created.clone()));
    assert_eq!(controller.investments().len(), 1);
    assert_eq!(controller.investments()[0].id, created.id);

    controller.create_investment(Err(StoreError::StoreUnavailable));
    assert_eq!(controller.investments().len(), 1);
}

#[test]
fn delete_outcome_removes_only_on_confirmed_effect() {
    let mut store = InvestmentStore::new();
    let mut controller = InvestmentController::new();
    let created = store.create(sample("one"), CREATE_TIME).unwrap();
    let id = created.id.clone().unwrap();
    controller.create_investment(Ok(created));

    // An affected count of zero leaves the shown collection alone.
    controller.delete_investment(&id, Ok(AffectedRows { rows_affected: 0 }));
    assert_eq!(controller.investments().len(), 1);

    // So does an error.
    controller.delete_investment(&id, Err(StoreError::StoreUnavailable));
    assert_eq!(controller.investments().len(), 1);

    // A confirmed delete removes the record.
    let affected = store.delete(&id);
    controller.delete_investment(&id, Ok(affected));
    assert_eq!(controller.investments().len(), 0);
}

#[test]
fn edit_outcome_replaces_in_place() {
    let mut store = InvestmentStore::new();
    let mut controller = InvestmentController::new();
    let first = store.create(sample("one"), CREATE_TIME).unwrap();
    let second = store.create(sample("two"), CREATE_TIME).unwrap();
    controller.init_investments(Ok(store.list_all()));

    let mut patch = first.to_patch();
    patch.return_amount = 1200;
    let merged = store.update(&patch, UPDATE_TIME).unwrap();
    controller.edit_investment(Ok(merged));

    let shown = controller.investments();
    assert_eq!(shown.len(), 2);
    assert_eq!(shown[0].id, first.id);
    assert_eq!(shown[0].return_amount, 1200);
    assert_eq!(shown[1].id, second.id);
    assert_eq!(shown[1].return_amount, 1100);

    controller.edit_investment(Err(StoreError::NotFound));
    assert_eq!(controller.investments().len(), 2);
}

#[test]
fn no_duplicate_ids_under_any_response_order() {
    let mut store = InvestmentStore::new();
    let mut controller = InvestmentController::new();
    let one = store.create(sample("one"), CREATE_TIME).unwrap();
    let two = store.create(sample("two"), CREATE_TIME).unwrap();

    // A late duplicate create response for an already-shown record wins in
    // place instead of being shown twice.
    controller.create_investment(Ok(one.clone()));
    controller.create_investment(Ok(two.clone()));
    let mut one_again = one.clone();
    one_again.return_amount = 1300;
    controller.create_investment(Ok(one_again));
    assert_no_duplicate_ids(controller.investments());
    assert_eq!(controller.investments().len(), 2);
    assert_eq!(controller.investments()[0].return_amount, 1300);

    // Deletes and edits keep the collection duplicate-free too.
    let id_one = one.id.clone().unwrap();
    controller.delete_investment(&id_one, Ok(AffectedRows { rows_affected: 1 }));
    assert_no_duplicate_ids(controller.investments());
    assert_eq!(controller.investments().len(), 1);

    let mut two_edited = two.clone();
    two_edited.inv_amount = 2000;
    controller.edit_investment(Ok(two_edited));
    assert_no_duplicate_ids(controller.investments());
    assert_eq!(controller.investments().len(), 1);
    assert_eq!(controller.investments()[0].inv_amount, 2000);
}

#[test]
fn state_store_mutations_are_total_and_duplicate_free() {
    let mut store = InvestmentStore::new();
    let mut state = InvestmentState::new();
    let one = store.create(sample("one"), CREATE_TIME).unwrap();
    let two = store.create(sample("two"), CREATE_TIME).unwrap();

    state.replace_all(store.list_all());
    assert_eq!(state.investments().len(), 2);

    // Removing an identifier that is not shown is a no-op.
    state.remove_by_id(&"missing-1".to_string());
    assert_eq!(state.investments().len(), 2);

    // Replacing an identifier that is not shown is a no-op.
    let mut ghost_record = one.clone();
    ghost_record.id = Some("missing-1".to_string());
    state.replace_by_id(ghost_record);
    assert_eq!(state.investments().len(), 2);
    assert_eq!(state.investments()[0].id, one.id);
    assert_eq!(state.investments()[1].id, two.id);

    // Appending a shown identifier replaces in place.
    let mut one_newer = one.clone();
    one_newer.return_rate = 11;
    state.append(one_newer);
    assert_no_duplicate_ids(state.investments());
    assert_eq!(state.investments().len(), 2);
    assert_eq!(state.investments()[0].return_rate, 11);

    state.remove_by_id(&one.id.clone().unwrap());
    assert_eq!(state.investments().len(), 1);
    assert_eq!(state.investments()[0].id, two.id);
}
