use petstore::catalog::{CategoryRepository, TagRepository};
use petstore::error::PetstoreError;
use petstore::matcher::{AnyPet, StatusFilter, TagFilter, UsernameIs};
use petstore::model::{Category, Order, OrderStatus, Pet, Status, Tag, User};
use petstore::orders::OrderRepository;
use petstore::pets::PetRepository;
use petstore::users::UserRepository;

fn pet(name: &str, status: Option<Status>) -> Pet {
    Pet {
        id: None,
        name: name.to_string(),
        photo_urls: vec!["http://example.com/a.png".to_string()],
        category: None,
        tags: None,
        status,
    }
}

fn user(name: &str) -> User {
    User {
        id: None,
        username: name.to_string(),
        first_name: Some("First".to_string()),
        last_name: None,
        email: Some("a@example.com".to_string()),
        password: "secret".to_string(),
        phone: None,
    }
}

fn order(pet_id: u64) -> Order {
    Order {
        id: None,
        pet_id: Some(pet_id),
        quantity: Some(2),
        ship_date: Some("2018-01-01".to_string()),
        status: None,
        complete: Some(false),
    }
}

#[test]
fn pet_ids_are_max_plus_one() {
    let mut repo = PetRepository::new();
    let a = repo.add(pet("a", None)).unwrap();
    let b = repo.add(pet("b", None)).unwrap();
    let c = repo.add(pet("c", None)).unwrap();
    assert_eq!((a.id, b.id, c.id), (Some(0), Some(1), Some(2)));
    assert_eq!(repo.delete(0).unwrap().map(|p| p.name), Some("a".to_string()));
    assert_eq!(repo.add(pet("d", None)).unwrap().id, Some(3));
    assert_eq!(repo.delete(3).unwrap().map(|p| p.name), Some("d".to_string()));
    assert_eq!(repo.add(pet("e", None)).unwrap().id, Some(3));
}

#[test]
fn pet_get_after_add_matches_input() {
    let mut repo = PetRepository::new();
    let mut input = pet("Rex", Some(Status::Pending));
    input.tags = Some(vec![Tag { id: None, name: "dog".to_string() }]);
    input.category = Some(Category { id: None, name: "dogs".to_string() });
    let added = repo.add(input.clone()).unwrap();
    let got = repo.get(0).unwrap().unwrap();
    assert_eq!(got, added);
    let mut expected = input;
    expected.id = Some(0);
    assert_eq!(got, expected);
    assert_eq!(repo.get(1).unwrap(), None);
}

#[test]
fn pet_add_with_id_is_invalid() {
    let mut repo = PetRepository::new();
    let mut p = pet("a", None);
    p.id = Some(5);
    assert_eq!(repo.add(p), Err(PetstoreError::InvalidInput));
    assert_eq!(repo.find(&AnyPet).unwrap().len(), 0);
}

#[test]
fn pet_update_errors() {
    let mut repo = PetRepository::new();
    repo.add(pet("a", None)).unwrap();
    assert_eq!(repo.update(pet("b", None)), Err(PetstoreError::MissingIdentifier));
    let mut ghost = pet("ghost", None);
    ghost.id = Some(9);
    assert_eq!(repo.update(ghost), Err(PetstoreError::MissingPet));
    let mut renamed = pet("renamed", Some(Status::Adopted));
    renamed.id = Some(0);
    assert_eq!(repo.update(renamed.clone()), Ok(renamed.clone()));
    assert_eq!(repo.get(0).unwrap(), Some(renamed));
}

#[test]
fn pet_update_name_status_patches_given_fields() {
    let mut repo = PetRepository::new();
    repo.add(pet("a", Some(Status::Available))).unwrap();
    let p = repo.update_name_status(0, None, Some(Status::Pending)).unwrap();
    assert_eq!((p.name.as_str(), p.status), ("a", Some(Status::Pending)));
    let p = repo.update_name_status(0, Some("Alice".to_string()), None).unwrap();
    assert_eq!((p.name.as_str(), p.status), ("Alice", Some(Status::Pending)));
    assert_eq!(repo.get(0).unwrap(), Some(p));
    assert_eq!(
        repo.update_name_status(4, Some("x".to_string()), None),
        Err(PetstoreError::MissingPet)
    );
}

#[test]
fn pet_find_is_sorted_and_filtered() {
    let mut repo = PetRepository::new();
    repo.add(pet("a", Some(Status::Available))).unwrap();
    repo.add(pet("b", Some(Status::Pending))).unwrap();
    repo.add(pet("c", None)).unwrap();
    repo.add(pet("d", Some(Status::Adopted))).unwrap();
    repo.delete(0).unwrap();
    repo.add(pet("e", Some(Status::Available))).unwrap();
    let all: Vec<u64> = repo.find(&AnyPet).unwrap().iter().map(|p| p.id.unwrap()).collect();
    assert_eq!(all, vec![1, 2, 3, 4]);
    let filter = StatusFilter { statuses: vec![Status::Available, Status::Adopted] };
    let names: Vec<String> = repo.find(&filter).unwrap().into_iter().map(|p| p.name).collect();
    assert_eq!(names, vec!["c", "d", "e"]);
    let none = TagFilter { tags: vec!["cat".to_string()] };
    assert!(repo.find(&none).unwrap().is_empty());
    let empty = TagFilter { tags: vec![] };
    assert_eq!(repo.find(&empty).unwrap().len(), 4);
}

#[test]
fn pet_delete_absent_is_none() {
    let mut repo = PetRepository::new();
    assert_eq!(repo.delete(0), Ok(None));
}

#[test]
fn tags_and_categories_get_ids() {
    let mut tags = TagRepository::new();
    let t = tags.add(Tag { id: None, name: "cat".to_string() }).unwrap();
    assert_eq!(t, Tag { id: Some(0), name: "cat".to_string() });
    assert_eq!(tags.add(Tag { id: None, name: "cute".to_string() }).unwrap().id, Some(1));
    assert_eq!(tags.add(Tag { id: Some(3), name: "x".to_string() }), Err(PetstoreError::InvalidInput));
    assert_eq!(tags.get(1).unwrap().map(|t| t.name), Some("cute".to_string()));
    assert_eq!(tags.get(2), Ok(None));

    let mut categories = CategoryRepository::new();
    let c = categories.add(Category { id: None, name: "dogs".to_string() }).unwrap();
    assert_eq!(c, Category { id: Some(0), name: "dogs".to_string() });
    assert_eq!(
        categories.add(Category { id: Some(0), name: "cats".to_string() }),
        Err(PetstoreError::InvalidInput)
    );
    assert_eq!(categories.get(0), Ok(Some(c)));
}

#[test]
fn orders_are_told_new_by_status() {
    let mut repo = OrderRepository::new();
    let mut placed = order(1);
    placed.status = Some(OrderStatus::Placed);
    assert_eq!(repo.add(placed), Err(PetstoreError::InvalidInput));
    let mut with_id = order(1);
    with_id.id = Some(7);
    let stored = repo.add(with_id).unwrap();
    assert_eq!(stored.id, Some(0));
    let stored = repo.add(order(2)).unwrap();
    assert_eq!(stored.id, Some(1));
    let mut expected = order(2);
    expected.id = Some(1);
    assert_eq!(repo.get(1), Ok(Some(expected.clone())));
    assert_eq!(repo.delete(1), Ok(Some(expected)));
    assert_eq!(repo.delete(1), Ok(None));
    assert_eq!(repo.get(1), Ok(None));
}

#[test]
fn users_are_unique_by_username() {
    let mut repo = UserRepository::new();
    let a = repo.add(user("alice")).unwrap();
    assert_eq!(a.id, Some(0));
    assert_eq!(repo.add(user("alice")), Err(PetstoreError::RedundantUserName));
    let mut with_id = user("bob");
    with_id.id = Some(1);
    assert_eq!(repo.add(with_id), Err(PetstoreError::InvalidInput));
    assert_eq!(repo.add(user("bob")).unwrap().id, Some(1));
    let found = repo.find_one(&UsernameIs { name: "alice".to_string() }).unwrap();
    assert_eq!(found, Some(a));
    assert_eq!(repo.find_one(&UsernameIs { name: "carol".to_string() }), Ok(None));
}

#[test]
fn user_update_keeps_stored_id() {
    let mut repo = UserRepository::new();
    repo.add(user("alice")).unwrap();
    repo.add(user("bob")).unwrap();
    let mut changed = user("bob");
    changed.id = Some(42);
    changed.phone = Some("555".to_string());
    let stored = repo.update(changed).unwrap();
    assert_eq!(stored.id, Some(1));
    assert_eq!(stored.phone, Some("555".to_string()));
    let found = repo.find_one(&UsernameIs { name: "bob".to_string() }).unwrap();
    assert_eq!(found, Some(stored));
    assert_eq!(repo.update(user("carol")), Err(PetstoreError::MissingUser));
}

#[test]
fn user_delete_by_name() {
    let mut repo = UserRepository::new();
    repo.add(user("alice")).unwrap();
    let removed = repo.delete("alice".to_string()).unwrap();
    assert_eq!(removed.map(|u| u.id), Some(Some(0)));
    assert_eq!(repo.delete("alice".to_string()), Ok(None));
    assert_eq!(repo.find_one(&UsernameIs { name: "alice".to_string() }), Ok(None));
}
