use investments::record::{Investment, InvestmentPatch};
use investments::store::InvestmentStore;
use investments::StoreError;

const JAN_1_2024: i64 = 1704067200;
const JAN_1_2025: i64 = 1735689600;
const CREATE_TIME: i64 = 1710000000;
const UPDATE_TIME: i64 = 1720000000;

fn car_fund() -> Investment {
    Investment {
        id: None,
        inv_name: "Car Fund".to_string(),
        name: "Alice".to_string(),
        inv_type: "FD".to_string(),
        return_type: "Ordinary".to_string(),
        inv_amount: 1000,
        return_amount: 1100,
        return_rate: 10,
        start_date: Some(JAN_1_2024),
        end_date: Some(JAN_1_2025),
        created_at: None,
        updated_at: None,
    }
}

fn assert_client_fields_eq(a: &Investment, b: &Investment) {
    assert_eq!(a.inv_name, b.inv_name);
    assert_eq!(a.name, b.name);
    assert_eq!(a.inv_type, b.inv_type);
    assert_eq!(a.return_type, b.return_type);
    assert_eq!(a.inv_amount, b.inv_amount);
    assert_eq!(a.return_amount, b.return_amount);
    assert_eq!(a.return_rate, b.return_rate);
    assert_eq!(a.start_date, b.start_date);
    assert_eq!(a.end_date, b.end_date);
}

#[test]
fn create_assigns_id_and_keeps_fields() {
    let mut store = InvestmentStore::new();
    let created = store.create(car_fund(), CREATE_TIME).unwrap();
    assert!(created.id.is_some());
    assert_eq!(created.created_at, Some(CREATE_TIME));
    assert_eq!(created.updated_at, Some(CREATE_TIME));
    assert_client_fields_eq(&created, &car_fund());
}

#[test]
fn create_rejects_candidate_with_id() {
    let mut store = InvestmentStore::new();
    let mut candidate = car_fund();
    candidate.id = Some("inv-7".to_string());
    match store.create(candidate, CREATE_TIME) {
        Err(StoreError::InvalidArgument) => {}
        _ => panic!("a candidate carrying an identifier must be rejected"),
    }
    assert_eq!(store.list_all().len(), 0);
}

#[test]
fn read_returns_created_record() {
    let mut store = InvestmentStore::new();
    let created = store.create(car_fund(), CREATE_TIME).unwrap();
    let id = created.id.clone().unwrap();
    let read = store.read(&id).unwrap();
    assert_eq!(read.id, created.id);
    assert_eq!(read.created_at, created.created_at);
    assert_eq!(read.updated_at, created.updated_at);
    assert_client_fields_eq(&read, &created);
}

#[test]
fn read_missing_is_not_found() {
    let store = InvestmentStore::new();
    match store.read(&"missing-1".to_string()) {
        Err(StoreError::NotFound) => {}
        _ => panic!("reading an unknown identifier must be NotFound"),
    }
}

#[test]
fn list_after_create_holds_exactly_that_record_once() {
    let mut store = InvestmentStore::new();
    let created = store.create(car_fund(), CREATE_TIME).unwrap();
    let listed = store.list_all();
    assert_eq!(listed.len(), 1);
    assert_eq!(listed[0].id, created.id);
    assert_client_fields_eq(&listed[0], &created);
    let occurrences = listed.iter().filter(|r| r.id == created.id).count();
    assert_eq!(occurrences, 1);
}

#[test]
fn delete_missing_id_affects_zero_without_error() {
    let mut store = InvestmentStore::new();
    let affected = store.delete(&"missing-1".to_string());
    assert_eq!(affected.rows_affected, 0);
}

#[test]
fn delete_twice_affects_one_then_zero() {
    let mut store = InvestmentStore::new();
    let created = store.create(car_fund(), CREATE_TIME).unwrap();
    let id = created.id.clone().unwrap();
    assert_eq!(store.delete(&id).rows_affected, 1);
    assert_eq!(store.delete(&id).rows_affected, 0);
    assert_eq!(store.list_all().len(), 0);
}

#[test]
fn update_merges_and_read_shows_it() {
    let mut store = InvestmentStore::new();
    let created = store.create(car_fund(), CREATE_TIME).unwrap();
    let mut patch = created.to_patch();
    patch.return_amount = 1200;
    let updated = store.update(&patch, UPDATE_TIME).unwrap();
    assert_eq!(updated.return_amount, 1200);
    let id = created.id.clone().unwrap();
    let read = store.read(&id).unwrap();
    assert_eq!(read.return_amount, 1200);
    assert_eq!(read.id, created.id);
    assert_eq!(read.inv_name, created.inv_name);
    assert_eq!(read.name, created.name);
    assert_eq!(read.inv_type, created.inv_type);
    assert_eq!(read.return_type, created.return_type);
    assert_eq!(read.inv_amount, created.inv_amount);
    assert_eq!(read.return_rate, created.return_rate);
    assert_eq!(read.start_date, created.start_date);
    assert_eq!(read.end_date, created.end_date);
    assert_eq!(read.created_at, created.created_at);
    assert_eq!(read.updated_at, Some(UPDATE_TIME));
}

#[test]
fn update_twice_with_same_patch_is_idempotent() {
    let mut store = InvestmentStore::new();
    let created = store.create(car_fund(), CREATE_TIME).unwrap();
    let mut patch = created.to_patch();
    patch.return_amount = 1200;
    patch.return_rate = 12;
    let once = store.update(&patch, UPDATE_TIME).unwrap();
    let twice = store.update(&patch, UPDATE_TIME).unwrap();
    assert_eq!(once.id, twice.id);
    assert_eq!(once.created_at, twice.created_at);
    assert_eq!(once.updated_at, twice.updated_at);
    assert_client_fields_eq(&once, &twice);
    let listed = store.list_all();
    assert_eq!(listed.len(), 1);
    assert_eq!(listed[0].return_amount, 1200);
}

#[test]
fn update_missing_id_is_not_found() {
    let mut store = InvestmentStore::new();
    let created = store.create(car_fund(), CREATE_TIME).unwrap();
    let mut patch = created.to_patch();
    patch.id = "missing-1".to_string();
    match store.update(&patch, UPDATE_TIME) {
        Err(StoreError::NotFound) => {}
        _ => panic!("updating an unknown identifier must be NotFound"),
    }
}

#[test]
fn created_ids_are_distinct_and_order_is_kept() {
    let mut store = InvestmentStore::new();
    let mut ids = Vec::new();
    for i in 0..5u64 {
        let mut candidate = car_fund();
        candidate.inv_amount = 1000 + i;
        let created = store.create(candidate, CREATE_TIME).unwrap();
        ids.push(created.id.unwrap());
    }
    for i in 0..ids.len() {
        for j in 0..ids.len() {
            if i != j {
                assert_ne!(ids[i], ids[j]);
            }
        }
    }
    let listed = store.list_all();
    assert_eq!(listed.len(), 5);
    for (i, rec) in listed.iter().enumerate() {
        assert_eq!(rec.inv_amount, 1000 + i as u64);
    }
}
