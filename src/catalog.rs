use vstd::prelude::*;

use crate::error::{PetstoreError, PetstoreResult};
use crate::model::{Category, Tag};
use crate::store::{ascending_keys, next_id, InMemoryDatabase};

verus! {

/// The tags registered in the store, keyed by their identifiers.
pub struct TagRepository {
    tags: InMemoryDatabase<Tag>,
}

impl View for TagRepository {
    type V = Map<u64, Tag>;

    closed spec fn view(&self) -> Map<u64, Tag> {
        self.tags@
    }
}

impl TagRepository {
    /// The store is consistent and each tag carries the key it is stored under.
    pub closed spec fn wf(&self) -> bool {
        &&& self.tags.wf()
        &&& forall|k: u64| #[trigger] self.tags@.contains_key(k) ==> self.tags@[k].id == Some(k)
    }

    /// The underlying store, for its keys and its access state.
    pub closed spec fn database(&self) -> InMemoryDatabase<Tag> {
        self.tags
    }

    /// What a well-formed repository guarantees of its entries.
    pub proof fn lemma_wf(&self)
        requires
            self.wf(),
        ensures
            ascending_keys(self@, self.database().keys()),
            forall|k: u64| #[trigger] self@.contains_key(k) ==> self@[k].id == Some(k),
    {
        self.tags.lemma_keys();
    }

    /// An empty repository.
    pub fn new() -> (r: Self)
        ensures
            r.wf(),
            r@ == Map::<u64, Tag>::empty(),
            r.database().can_write(),
    {
        TagRepository { tags: InMemoryDatabase::new() }
    }

    /// Whether `n` more tags can be given identifiers.
    pub fn has_ids_for(&self, n: u64) -> (r: bool)
        requires
            self.wf(),
        ensures
            r == (next_id(self@.dom()) + n <= u64::MAX + 1),
    {
        self.tags.has_ids_for(n)
    }

    /// The tag stored under `id`, if any.
    pub fn get(&self, id: u64) -> (r: PetstoreResult<Option<Tag>>)
        requires
            self.wf(),
        ensures
            r == (if !self.database().can_read() {
                Err::<Option<Tag>, PetstoreError>(PetstoreError::AccessConflict)
            } else if self@.contains_key(id) {
                Ok(Some(self@[id]))
            } else {
                Ok(None)
            }),
    {
        self.tags.read()?;
        match self.tags.get(id) {
            Some(v) => Ok(Some(v.copy())),
            None => Ok(None),
        }
    }

    /// Stores `tag` under the next identifier and returns it with that
    /// identifier set; a tag that already carries an identifier is refused.
    pub fn add(&mut self, tag: Tag) -> (r: PetstoreResult<Tag>)
        requires
            old(self).wf(),
            next_id(old(self)@.dom()) <= u64::MAX,
        ensures
            final(self).wf(),
            final(self).database().same_access(&old(self).database()),
            !old(self).database().can_write() ==> r == Err::<Tag, PetstoreError>(
                PetstoreError::AccessConflict,
            ) && *final(self) == *old(self),
            old(self).database().can_write() && tag.id is Some ==> r == Err::<Tag, PetstoreError>(
                PetstoreError::InvalidInput,
            ) && *final(self) == *old(self),
            old(self).database().can_write() && tag.id is None ==> ({
                let id = next_id(old(self)@.dom()) as u64;
                &&& r == Ok::<Tag, PetstoreError>(Tag { id: Some(id), ..tag })
                &&& final(self)@ == old(self)@.insert(id, Tag { id: Some(id), ..tag })
                &&& final(self).database().keys() == old(self).database().keys().push(id)
            }),
    {
        self.tags.write()?;
        if tag.id.is_some() {
            return Err(PetstoreError::InvalidInput);
        }
        let id = self.tags.fresh_id();
        let mut tag = tag;
        tag.id = Some(id);
        self.tags.insert_fresh(id, tag.copy());
        Ok(tag)
    }
}

/// The categories registered in the store, keyed by their identifiers.
pub struct CategoryRepository {
    categories: InMemoryDatabase<Category>,
}

impl View for CategoryRepository {
    type V = Map<u64, Category>;

    closed spec fn view(&self) -> Map<u64, Category> {
        self.categories@
    }
}

impl CategoryRepository {
    /// The store is consistent and each category carries the key it is stored under.
    pub closed spec fn wf(&self) -> bool {
        &&& self.categories.wf()
        &&& forall|k: u64| #[trigger]
            self.categories@.contains_key(k) ==> self.categories@[k].id == Some(k)
    }

    /// The underlying store, for its keys and its access state.
    pub closed spec fn database(&self) -> InMemoryDatabase<Category> {
        self.categories
    }

    /// What a well-formed repository guarantees of its entries.
    pub proof fn lemma_wf(&self)
        requires
            self.wf(),
        ensures
            ascending_keys(self@, self.database().keys()),
            forall|k: u64| #[trigger] self@.contains_key(k) ==> self@[k].id == Some(k),
    {
        self.categories.lemma_keys();
    }

    /// An empty repository.
    pub fn new() -> (r: Self)
        ensures
            r.wf(),
            r@ == Map::<u64, Category>::empty(),
            r.database().can_write(),
    {
        CategoryRepository { categories: InMemoryDatabase::new() }
    }

    /// Whether `n` more categorys can be given identifiers.
    pub fn has_ids_for(&self, n: u64) -> (r: bool)
        requires
            self.wf(),
        ensures
            r == (next_id(self@.dom()) + n <= u64::MAX + 1),
    {
        self.categories.has_ids_for(n)
    }

    /// The category stored under `id`, if any.
    pub fn get(&self, id: u64) -> (r: PetstoreResult<Option<Category>>)
        requires
            self.wf(),
        ensures
            r == (if !self.database().can_read() {
                Err::<Option<Category>, PetstoreError>(PetstoreError::AccessConflict)
            } else if self@.contains_key(id) {
                Ok(Some(self@[id]))
            } else {
                Ok(None)
            }),
    {
        self.categories.read()?;
        match self.categories.get(id) {
            Some(v) => Ok(Some(v.copy())),
            None => Ok(None),
        }
    }

    /// Stores `category` under the next identifier and returns it with that
    /// identifier set; a category that already carries an identifier is refused.
    pub fn add(&mut self, category: Category) -> (r: PetstoreResult<Category>)
        requires
            old(self).wf(),
            next_id(old(self)@.dom()) <= u64::MAX,
        ensures
            final(self).wf(),
            final(self).database().same_access(&old(self).database()),
            !old(self).database().can_write() ==> r == Err::<Category, PetstoreError>(
                PetstoreError::AccessConflict,
            ) && *final(self) == *old(self),
            old(self).database().can_write() && category.id is Some ==> r == Err::<
                Category,
                PetstoreError,
            >(PetstoreError::InvalidInput) && *final(self) == *old(self),
            old(self).database().can_write() && category.id is None ==> ({
                let id = next_id(old(self)@.dom()) as u64;
                &&& r == Ok::<Category, PetstoreError>(Category { id: Some(id), ..category })
                &&& final(self)@ == old(self)@.insert(id, Category { id: Some(id), ..category })
                &&& final(self).database().keys() == old(self).database().keys().push(id)
            }),
    {
        self.categories.write()?;
        if category.id.is_some() {
            return Err(PetstoreError::InvalidInput);
        }
        let id = self.categories.fresh_id();
        let mut category = category;
        category.id = Some(id);
        self.categories.insert_fresh(id, category.copy());
        Ok(category)
    }
}

} // verus!
