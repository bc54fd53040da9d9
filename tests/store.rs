use user_service::store::{StoreError, UserStore};
use user_service::user::{CreateUserRequest, UpdateUserRequest};

fn request(name: &str, email: &str, age: u32) -> CreateUserRequest {
    CreateUserRequest { name: name.to_string(), email: email.to_string(), age }
}

fn stamp() -> String {
    "2024-06-01T09:30:00Z".to_string()
}

fn sorted_ids(store: &UserStore) -> Vec<u32> {
    let mut ids: Vec<u32> = store.list().iter().map(|u| u.id).collect();
    ids.sort();
    ids
}

#[test]
fn seed_store_holds_three_records() {
    let store = UserStore::with_seed_users();
    assert_eq!(store.len(), 3);
    assert_eq!(sorted_ids(&store), vec![1, 2, 3]);
    let first = store.get_by_id(1).unwrap();
    assert_eq!(first.name, "Иван Иванов");
    assert_eq!(first.email, "ivan@example.com");
    assert_eq!(first.age, 25);
    assert_eq!(first.created_at, "2024-01-01T10:00:00Z");
    let third = store.get_by_id(3).unwrap();
    assert_eq!(third.email, "alex@example.com");
    assert_eq!(third.age, 28);
}

#[test]
fn new_store_is_empty() {
    let store = UserStore::new();
    assert_eq!(store.len(), 0);
    assert!(store.list().is_empty());
    assert!(store.get_by_id(1).is_none());
}

#[test]
fn get_by_id_of_missing_id_is_none() {
    let store = UserStore::with_seed_users();
    assert!(store.get_by_id(0).is_none());
    assert!(store.get_by_id(4).is_none());
    assert!(store.get_by_id(u32::MAX).is_none());
}

#[test]
fn create_on_seed_store_gets_id_four() {
    let mut store = UserStore::with_seed_users();
    let u = store.create(request("Test", "t@e.com", 5), "2025-05-05T05:05:05Z".to_string()).unwrap();
    assert_eq!(u.id, 4);
    assert_eq!(u.name, "Test");
    assert_eq!(u.email, "t@e.com");
    assert_eq!(u.age, 5);
    assert_eq!(u.created_at, "2025-05-05T05:05:05Z");
    assert_eq!(store.len(), 4);
    let stored = store.get_by_id(4).unwrap();
    assert_eq!(stored.name, "Test");
    assert_eq!(stored.created_at, "2025-05-05T05:05:05Z");
}

#[test]
fn created_id_exceeds_every_existing_id() {
    let mut store = UserStore::with_seed_users();
    store.delete(2).unwrap();
    let before = sorted_ids(&store);
    let u = store.create(request("A", "a@b.c", 1), stamp()).unwrap();
    assert!(before.iter().all(|&k| k < u.id));
    assert_eq!(u.id, 4);
}

#[test]
fn create_on_empty_store_gets_id_one() {
    let mut store = UserStore::new();
    let u = store.create(request("A", "a@b.c", 0), stamp()).unwrap();
    assert_eq!(u.id, 1);
}

#[test]
fn create_with_empty_name_fails() {
    let mut store = UserStore::with_seed_users();
    let r = store.create(request("", "x@y.z", 3), stamp());
    assert_eq!(r.unwrap_err(), StoreError::Validation);
    assert_eq!(store.len(), 3);
}

#[test]
fn create_with_empty_email_fails() {
    let mut store = UserStore::with_seed_users();
    let r = store.create(request("Name", "", 3), stamp());
    assert_eq!(r.unwrap_err(), StoreError::Validation);
    assert_eq!(store.len(), 3);
}

#[test]
fn create_with_both_fields_empty_fails() {
    let mut store = UserStore::with_seed_users();
    let r = store.create(request("", "", 3), "t".to_string());
    assert_eq!(r.unwrap_err(), StoreError::Validation);
    assert_eq!(sorted_ids(&store), vec![1, 2, 3]);
}

#[test]
fn update_name_keeps_other_fields() {
    let mut store = UserStore::with_seed_users();
    let before = store.get_by_id(2).unwrap();
    let req = UpdateUserRequest { name: Some("X".to_string()), email: None, age: None };
    let u = store.update(2, &req).unwrap();
    assert_eq!(u.name, "X");
    let after = store.get_by_id(2).unwrap();
    assert_eq!(after.name, "X");
    assert_eq!(after.id, before.id);
    assert_eq!(after.email, before.email);
    assert_eq!(after.age, before.age);
    assert_eq!(after.created_at, before.created_at);
}

#[test]
fn update_all_fields() {
    let mut store = UserStore::with_seed_users();
    let req = UpdateUserRequest {
        name: Some("N".to_string()),
        email: Some("n@m.o".to_string()),
        age: Some(40),
    };
    let u = store.update(3, &req).unwrap();
    assert_eq!(u.id, 3);
    assert_eq!(u.name, "N");
    assert_eq!(u.email, "n@m.o");
    assert_eq!(u.age, 40);
    assert_eq!(u.created_at, "2024-01-03T12:00:00Z");
    assert_eq!(store.len(), 3);
}

#[test]
fn update_with_empty_request_changes_nothing() {
    let mut store = UserStore::with_seed_users();
    let req = UpdateUserRequest { name: None, email: None, age: None };
    let u = store.update(1, &req).unwrap();
    assert_eq!(u.name, "Иван Иванов");
    assert_eq!(u.email, "ivan@example.com");
    assert_eq!(u.age, 25);
}

#[test]
fn update_of_missing_id_fails() {
    let mut store = UserStore::with_seed_users();
    let req = UpdateUserRequest { name: Some("X".to_string()), email: None, age: None };
    assert_eq!(store.update(9, &req).unwrap_err(), StoreError::NotFound);
    assert_eq!(store.len(), 3);
}

#[test]
fn delete_then_get_is_not_found() {
    let mut store = UserStore::with_seed_users();
    assert_eq!(store.delete(1), Ok(()));
    assert!(store.get_by_id(1).is_none());
    assert_eq!(sorted_ids(&store), vec![2, 3]);
}

#[test]
fn delete_of_missing_id_fails() {
    let mut store = UserStore::with_seed_users();
    assert_eq!(store.delete(7), Err(StoreError::NotFound));
    assert_eq!(store.len(), 3);
}

#[test]
fn delete_twice_fails_the_second_time() {
    let mut store = UserStore::with_seed_users();
    assert_eq!(store.delete(2), Ok(()));
    assert_eq!(store.delete(2), Err(StoreError::NotFound));
    assert_eq!(store.len(), 2);
}

#[test]
fn freed_largest_id_is_reassigned() {
    let mut store = UserStore::with_seed_users();
    store.delete(3).unwrap();
    let u = store.create(request("A", "a@b.c", 1), stamp()).unwrap();
    assert_eq!(u.id, 3);
}

#[test]
fn list_length_tracks_creates_and_deletes() {
    let mut store = UserStore::with_seed_users();
    let mut creates = 0usize;
    let mut deletes = 0usize;
    for i in 0..5u32 {
        if store.create(request("A", "a@b.c", i), stamp()).is_ok() {
            creates += 1;
        }
    }
    assert!(store.create(request("", "a@b.c", 0), stamp()).is_err());
    for id in [1u32, 4, 4, 100] {
        if store.delete(id).is_ok() {
            deletes += 1;
        }
    }
    let req = UpdateUserRequest { name: Some("Z".to_string()), email: None, age: None };
    store.update(2, &req).unwrap();
    assert_eq!(creates, 5);
    assert_eq!(deletes, 2);
    assert_eq!(store.list().len(), 3 + creates - deletes);
    assert_eq!(store.len(), 6);
}

#[test]
fn list_holds_each_record_once() {
    let store = UserStore::with_seed_users();
    let list = store.list();
    assert_eq!(list.len(), 3);
    for u in &list {
        let stored = store.get_by_id(u.id).unwrap();
        assert_eq!(stored.name, u.name);
        assert_eq!(stored.email, u.email);
    }
}

#[test]
fn sequential_creates_on_empty_store_are_dense() {
    let mut store = UserStore::new();
    for n in 1..=10u32 {
        let u = store.create(request("A", "a@b.c", n), stamp()).unwrap();
        assert_eq!(u.id, n);
    }
    assert_eq!(sorted_ids(&store), (1..=10).collect::<Vec<u32>>());
}
