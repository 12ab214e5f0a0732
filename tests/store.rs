use todos::error::Error;
use todos::store::TodoStore;
use todos::todo::{CreateTodo, Todo, UpdateTodo};

fn create(store: &mut TodoStore, body: &str, now: i64) -> Todo {
    Todo::create(store, CreateTodo::new(body.to_string()), now).unwrap()
}

#[test]
fn create_sets_defaults_and_fresh_ids() {
    let mut store = TodoStore::new();
    let a = create(&mut store, "a", 100);
    let b = create(&mut store, "b", 100);
    assert_eq!(a.id(), 1);
    assert_eq!(b.id(), 2);
    assert!(!a.completed());
    assert_eq!(a.created_at(), a.updated_at());
    assert_eq!(a.created_at(), 100);
    // the clock does not go backwards: the second change comes just after
    assert_eq!(b.created_at(), 101);
    assert_eq!(b.body(), "b");
}

#[test]
fn ids_are_not_reused_after_delete() {
    let mut store = TodoStore::new();
    let a = create(&mut store, "a", 1);
    Todo::delete(&mut store, a.id()).unwrap();
    let b = create(&mut store, "b", 2);
    assert_eq!(b.id(), 2);
    assert_ne!(a.id(), b.id());
}

#[test]
fn read_after_create_round_trips() {
    let mut store = TodoStore::new();
    let t = create(&mut store, "x", 5);
    let r = Todo::read(&store, t.id()).unwrap();
    assert_eq!(r.id(), t.id());
    assert_eq!(r.body(), "x");
    assert_eq!(r.completed(), false);
    assert_eq!(r.created_at(), t.created_at());
    assert_eq!(r.updated_at(), t.updated_at());
}

#[test]
fn update_refreshes_updated_at() {
    let mut store = TodoStore::new();
    let t = create(&mut store, "x", 50);
    let u = Todo::update(&mut store, t.id(), UpdateTodo::new("y".to_string(), true), 50).unwrap();
    assert_eq!(u.id(), t.id());
    assert_eq!(u.body(), "y");
    assert!(u.completed());
    assert_eq!(u.created_at(), 50);
    assert_eq!(u.updated_at(), 51);
    let later = Todo::update(&mut store, t.id(), UpdateTodo::new("z".to_string(), false), 90).unwrap();
    assert_eq!(later.updated_at(), 90);
    assert!(later.updated_at() > u.updated_at());
    assert!(later.updated_at() >= later.created_at());
}

#[test]
fn missing_id_is_not_found_but_delete_succeeds() {
    let mut store = TodoStore::new();
    create(&mut store, "a", 1);
    assert_eq!(Todo::read(&store, 7).unwrap_err(), Error::NotFound);
    let r = Todo::update(&mut store, 7, UpdateTodo::new("b".to_string(), true), 2);
    assert_eq!(r.unwrap_err(), Error::NotFound);
    assert_eq!(Todo::delete(&mut store, 7), Ok(()));
    assert_eq!(Todo::list(&store).len(), 1);
}

#[test]
fn buy_milk_scenario() {
    let mut store = TodoStore::new();
    let t = create(&mut store, "buy milk", 1000);
    assert_eq!(t.id(), 1);
    assert_eq!(t.body(), "buy milk");
    assert!(!t.completed());
    let u = Todo::update(&mut store, 1, UpdateTodo::new("buy milk".to_string(), true), 2000).unwrap();
    assert_eq!(u.id(), 1);
    assert_eq!(u.body(), "buy milk");
    assert!(u.completed());
    assert!(u.updated_at() > t.updated_at());
    assert_eq!(Todo::delete(&mut store, 1), Ok(()));
    assert_eq!(Todo::read(&store, 1).unwrap_err(), Error::NotFound);
}

#[test]
fn list_after_three_creates() {
    let mut store = TodoStore::new();
    assert!(Todo::list(&store).is_empty());
    create(&mut store, "one", 1);
    create(&mut store, "two", 2);
    create(&mut store, "three", 3);
    let all = Todo::list(&store);
    assert_eq!(all.len(), 3);
    let bodies: Vec<&str> = all.iter().map(|t| t.body()).collect();
    assert!(bodies.contains(&"one"));
    assert!(bodies.contains(&"two"));
    assert!(bodies.contains(&"three"));
}

#[test]
fn spent_clock_is_a_store_failure() {
    let mut store = TodoStore::new();
    let t = create(&mut store, "a", i64::MAX);
    assert_eq!(t.created_at(), i64::MAX);
    let r = Todo::create(&mut store, CreateTodo::new("b".to_string()), 0);
    assert_eq!(r.unwrap_err(), Error::StoreFailure);
    let u = Todo::update(&mut store, t.id(), UpdateTodo::new("c".to_string(), true), 0);
    assert_eq!(u.unwrap_err(), Error::StoreFailure);
    assert_eq!(Todo::list(&store).len(), 1);
    assert_eq!(Todo::read(&store, t.id()).unwrap().body(), "a");
}

#[test]
fn error_status_codes() {
    assert_eq!(Error::NotFound.status_code(), 404);
    assert_eq!(Error::StoreFailure.status_code(), 500);
}

#[test]
fn request_payload_getters() {
    let c = CreateTodo::new("walk".to_string());
    assert_eq!(c.body(), "walk");
    let u = UpdateTodo::new("run".to_string(), true);
    assert_eq!(u.body(), "run");
    assert!(u.completed());
}
