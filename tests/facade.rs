use petstore::error::PetstoreError;
use petstore::model::{Category, Inventory, Order, OrderStatus, Pet, Status, Tag, User};
use petstore::Petstore;

fn pet(name: &str, status: Option<Status>, tags: &[&str]) -> Pet {
    Pet {
        id: None,
        name: name.to_string(),
        photo_urls: vec![],
        category: None,
        tags: if tags.is_empty() {
            None
        } else {
            Some(tags.iter().map(|t| Tag { id: None, name: t.to_string() }).collect())
        },
        status,
    }
}

fn user(name: &str) -> User {
    User {
        id: None,
        username: name.to_string(),
        first_name: None,
        last_name: None,
        email: None,
        password: "pw".to_string(),
        phone: None,
    }
}

#[test]
fn add_pet_registers_tags_and_category() {
    let mut store = Petstore::new();
    let mut rex = pet("Rex", None, &["dog"]);
    rex.category = Some(Category { id: None, name: "dogs".to_string() });
    assert_eq!(store.add_pet(rex.clone()), Ok(0));
    let stored = store.get_pet(0).unwrap().unwrap();
    let mut expected = rex;
    expected.id = Some(0);
    assert_eq!(stored, expected);
    assert_eq!(
        store.tag_repository().get(0),
        Ok(Some(Tag { id: Some(0), name: "dog".to_string() }))
    );
    assert_eq!(
        store.category_repository().get(0),
        Ok(Some(Category { id: Some(0), name: "dogs".to_string() }))
    );
}

#[test]
fn scenario_rex_then_duplicate_users() {
    let mut store = Petstore::new();
    assert_eq!(store.add_pet(pet("Rex", None, &["dog"])), Ok(0));
    assert_eq!(store.get_pet(0).unwrap().map(|p| p.name), Some("Rex".to_string()));
    assert_eq!(
        store.tag_repository().get(0),
        Ok(Some(Tag { id: Some(0), name: "dog".to_string() }))
    );
    assert_eq!(store.add_users(vec![user("a"), user("a")]), Err(PetstoreError::RedundantUserName));
    let a = store.get_user("a".to_string()).unwrap().unwrap();
    assert_eq!(a.id, Some(0));
    assert_eq!(store.delete_user("a".to_string()), Ok(()));
    assert_eq!(store.get_user("a".to_string()), Ok(None));
}

#[test]
fn add_pet_partial_cascade_keeps_pet() {
    let mut store = Petstore::new();
    let mut p = pet("Tom", None, &["cat"]);
    p.tags.as_mut().unwrap().push(Tag { id: Some(9), name: "bad".to_string() });
    p.tags.as_mut().unwrap().push(Tag { id: None, name: "never".to_string() });
    assert_eq!(store.add_pet(p), Err(PetstoreError::InvalidInput));
    assert_eq!(store.get_pet(0).unwrap().map(|p| p.name), Some("Tom".to_string()));
    assert_eq!(store.tag_repository().get(0).unwrap().map(|t| t.name), Some("cat".to_string()));
    assert_eq!(store.tag_repository().get(1), Ok(None));
    let mut q = pet("Jerry", None, &[]);
    q.category = Some(Category { id: Some(1), name: "mice".to_string() });
    assert_eq!(store.add_pet(q), Err(PetstoreError::InvalidInput));
    assert_eq!(store.get_pet(1).unwrap().map(|p| p.name), Some("Jerry".to_string()));
    assert_eq!(store.category_repository().get(0), Ok(None));
}

#[test]
fn add_pet_with_id_is_refused() {
    let mut store = Petstore::new();
    let mut p = pet("a", None, &["x"]);
    p.id = Some(0);
    assert_eq!(store.add_pet(p), Err(PetstoreError::InvalidInput));
    assert_eq!(store.get_pet(0), Ok(None));
    assert_eq!(store.tag_repository().get(0), Ok(None));
}

#[test]
fn inventory_counts_statuses() {
    let mut store = Petstore::new();
    for st in [
        Some(Status::Available),
        Some(Status::Available),
        Some(Status::Pending),
        None,
        Some(Status::Adopted),
    ] {
        store.add_pet(pet("p", st, &[])).unwrap();
    }
    assert_eq!(
        store.get_inventory(),
        Ok(Inventory { available: 2, pending: 1, adopted: 1 })
    );
}

#[test]
fn inventory_of_empty_store() {
    let store = Petstore::new();
    assert_eq!(store.get_inventory(), Ok(Inventory { available: 0, pending: 0, adopted: 0 }));
}

#[test]
fn find_by_tag_is_conjunctive() {
    let mut store = Petstore::new();
    store.add_pet(pet("both", None, &["cat", "cute"])).unwrap();
    store.add_pet(pet("cat only", None, &["cat"])).unwrap();
    store.add_pet(pet("untagged", None, &[])).unwrap();
    store.add_pet(pet("reversed", None, &["cute", "fluffy", "cat"])).unwrap();
    let found: Vec<String> = store
        .find_pets_by_tag(vec!["cat".to_string(), "cute".to_string()])
        .unwrap()
        .into_iter()
        .map(|p| p.name)
        .collect();
    assert_eq!(found, vec!["both", "reversed"]);
    assert_eq!(store.find_pets_by_tag(vec![]).unwrap().len(), 4);
}

#[test]
fn find_by_status_includes_unset() {
    let mut store = Petstore::new();
    store.add_pet(pet("av", Some(Status::Available), &[])).unwrap();
    store.add_pet(pet("pe", Some(Status::Pending), &[])).unwrap();
    store.add_pet(pet("no", None, &[])).unwrap();
    store.add_pet(pet("ad", Some(Status::Adopted), &[])).unwrap();
    let found: Vec<String> = store
        .get_pets_by_status(vec![Status::Available, Status::Adopted])
        .unwrap()
        .into_iter()
        .map(|p| p.name)
        .collect();
    assert_eq!(found, vec!["av", "no", "ad"]);
    let only_unset: Vec<String> =
        store.get_pets_by_status(vec![]).unwrap().into_iter().map(|p| p.name).collect();
    assert_eq!(only_unset, vec!["no"]);
}

#[test]
fn delete_asymmetry_between_orders_and_pets() {
    let mut store = Petstore::new();
    assert_eq!(store.delete_order(3), Ok(false));
    assert_eq!(store.delete_pet(3), Err(PetstoreError::MissingPet));
    store.add_pet(pet("a", None, &[])).unwrap();
    assert_eq!(store.delete_pet(0), Ok(()));
    assert_eq!(store.get_pet(0), Ok(None));
}

#[test]
fn orders_through_the_facade() {
    let mut store = Petstore::new();
    let new_order = Order {
        id: None,
        pet_id: Some(0),
        quantity: Some(1),
        ship_date: None,
        status: None,
        complete: None,
    };
    assert_eq!(store.add_order(new_order.clone()), Ok(0));
    assert_eq!(store.add_order(new_order.clone()), Ok(1));
    let mut placed = new_order.clone();
    placed.status = Some(OrderStatus::Approved);
    assert_eq!(store.add_order(placed), Err(PetstoreError::InvalidInput));
    let mut expected = new_order;
    expected.id = Some(1);
    assert_eq!(store.find_order(1), Ok(Some(expected)));
    assert_eq!(store.delete_order(1), Ok(true));
    assert_eq!(store.find_order(1), Ok(None));
    assert_eq!(store.delete_order(1), Ok(false));
}

#[test]
fn pet_updates_through_the_facade() {
    let mut store = Petstore::new();
    store.add_pet(pet("a", None, &[])).unwrap();
    assert_eq!(store.update_pet(pet("b", None, &[])), Err(PetstoreError::MissingIdentifier));
    let mut missing = pet("b", None, &[]);
    missing.id = Some(5);
    assert_eq!(store.update_pet(missing), Err(PetstoreError::MissingPet));
    let mut b = pet("b", Some(Status::Pending), &[]);
    b.id = Some(0);
    assert_eq!(store.update_pet(b.clone()), Ok(b));
    let patched = store
        .update_pet_name_status(0, Some("Alice".to_string()), Some(Status::Available))
        .unwrap();
    assert_eq!((patched.name.as_str(), patched.status), ("Alice", Some(Status::Available)));
    assert_eq!(store.update_pet_name_status(1, None, None), Err(PetstoreError::MissingPet));
}

#[test]
fn users_through_the_facade() {
    let mut store = Petstore::new();
    assert_eq!(store.add_user(user("a")), Ok("a".to_string()));
    assert_eq!(store.add_user(user("a")), Err(PetstoreError::RedundantUserName));
    assert_eq!(
        store.add_users(vec![user("b"), user("c")]),
        Ok(vec!["b".to_string(), "c".to_string()])
    );
    assert_eq!(store.get_user("c".to_string()).unwrap().unwrap().id, Some(2));
    let mut with_id = user("d");
    with_id.id = Some(0);
    assert_eq!(store.add_users(vec![user("e"), with_id, user("f")]), Err(PetstoreError::InvalidInput));
    assert_eq!(store.get_user("e".to_string()).unwrap().unwrap().id, Some(3));
    assert_eq!(store.get_user("f".to_string()), Ok(None));
    let mut changed = user("b");
    changed.email = Some("b@example.com".to_string());
    let updated = store.update_user(changed).unwrap();
    assert_eq!((updated.id, updated.email.as_deref()), (Some(1), Some("b@example.com")));
    assert_eq!(store.update_user(user("zed")), Err(PetstoreError::MissingUser));
    assert_eq!(store.delete_user("nobody".to_string()), Ok(()));
}
