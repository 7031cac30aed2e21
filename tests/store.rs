use petstore::error::PetstoreError;
use petstore::store::InMemoryDatabase;

#[test]
fn fresh_store_allows_reads_and_writes() {
    let db: InMemoryDatabase<u32> = InMemoryDatabase::new();
    assert_eq!(db.read(), Ok(()));
    assert_eq!(db.write(), Ok(()));
    assert_eq!(db.len(), 0);
}

#[test]
fn shared_hold_blocks_writes_only() {
    let mut db: InMemoryDatabase<u32> = InMemoryDatabase::new();
    assert_eq!(db.acquire_shared(), Ok(()));
    assert_eq!(db.acquire_shared(), Ok(()));
    assert_eq!(db.read(), Ok(()));
    assert_eq!(db.write(), Err(PetstoreError::AccessConflict));
    assert_eq!(db.acquire_exclusive(), Err(PetstoreError::AccessConflict));
    db.release_shared();
    assert_eq!(db.write(), Err(PetstoreError::AccessConflict));
    db.release_shared();
    assert_eq!(db.write(), Ok(()));
}

#[test]
fn exclusive_hold_blocks_everything() {
    let mut db: InMemoryDatabase<u32> = InMemoryDatabase::new();
    assert_eq!(db.acquire_exclusive(), Ok(()));
    assert_eq!(db.read(), Err(PetstoreError::AccessConflict));
    assert_eq!(db.write(), Err(PetstoreError::AccessConflict));
    assert_eq!(db.acquire_shared(), Err(PetstoreError::AccessConflict));
    assert_eq!(db.acquire_exclusive(), Err(PetstoreError::AccessConflict));
    db.release_exclusive();
    assert_eq!(db.read(), Ok(()));
    assert_eq!(db.write(), Ok(()));
}

#[test]
fn ids_follow_the_largest_key() {
    let mut db: InMemoryDatabase<u32> = InMemoryDatabase::new();
    assert_eq!(db.fresh_id(), 0);
    db.insert_fresh(0, 10);
    assert_eq!(db.fresh_id(), 1);
    db.insert_fresh(1, 11);
    db.insert_fresh(2, 12);
    assert_eq!(db.remove(0), Some(10));
    assert_eq!(db.fresh_id(), 3);
    assert_eq!(db.remove(2), Some(12));
    assert_eq!(db.fresh_id(), 2);
    assert_eq!(db.remove(7), None);
    assert_eq!(db.len(), 1);
    assert_eq!(db.key_at(0), 1);
    assert_eq!(db.get(1), Some(&11));
    assert!(db.contains(1));
    assert!(!db.contains(0));
    db.replace(1, 21);
    assert_eq!(db.get(1), Some(&21));
}

#[test]
fn error_descriptions() {
    assert_eq!(PetstoreError::MissingPet.description(), "missing pet");
    assert_eq!(PetstoreError::RedundantUserName.description(), "redundant username");
    assert_eq!(PetstoreError::AccessConflict.description(), "the store is already in use");
}
