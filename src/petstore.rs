use vstd::prelude::*;

use crate::catalog::{CategoryRepository, TagRepository};
use crate::error::{PetstoreError, PetstoreResult};
use crate::matcher::{Matcher, has_all_tags, status_selected, AnyPet, StatusFilter, TagFilter, UsernameIs};
use crate::model::{Category, Inventory, Order, Pet, PetView, Status, Tag, User, pet_with_id};
use crate::orders::OrderRepository;
use crate::pets::{patched, PetRepository};
use crate::store::{law_sequential_ids, lemma_keys_count, lemma_select_len, next_id, select};
use crate::users::{username_taken, UserRepository};

verus! {

/// The tags embedded in a pet, as a sequence (empty when it has none).
pub open spec fn tags_of(p: PetView) -> Seq<Tag> {
    match p.tags {
        Some(ts) => ts,
        None => Seq::empty(),
    }
}

/// Registers `ts` in turn into a tag map `m`, each under the next identifier,
/// until a tag that carries an identifier is met: the resulting map, and
/// whether every tag was registered.
pub open spec fn cascade_tags(m: Map<u64, Tag>, ts: Seq<Tag>) -> (Map<u64, Tag>, bool)
    decreases ts.len(),
{
    if ts.len() == 0 {
        (m, true)
    } else if ts[0].id is Some {
        (m, false)
    } else {
        let id = next_id(m.dom()) as u64;
        cascade_tags(m.insert(id, Tag { id: Some(id), ..ts[0] }), ts.drop_first())
    }
}

/// Adds `us` in turn into a user map `m`, each under the next identifier,
/// until one is refused: the resulting map, and the error of the refusal.
pub open spec fn cascade_users(m: Map<u64, User>, us: Seq<User>) -> (
    Map<u64, User>,
    Option<PetstoreError>,
)
    decreases us.len(),
{
    if us.len() == 0 {
        (m, None)
    } else if us[0].id is Some {
        (m, Some(PetstoreError::InvalidInput))
    } else if username_taken(m, us[0].username@) {
        (m, Some(PetstoreError::RedundantUserName))
    } else {
        let id = next_id(m.dom()) as u64;
        cascade_users(m.insert(id, User { id: Some(id), ..us[0] }), us.drop_first())
    }
}

/// How many pets in `ps` have status `st`.
pub open spec fn count_status(ps: Seq<PetView>, st: Status) -> nat {
    ps.filter(|p: PetView| p.status == Some(st)).len()
}

/// The inventory of the pets `ps`: a count per status; pets with no status
/// are counted nowhere.
pub open spec fn inventory_of(ps: Seq<PetView>) -> Inventory {
    Inventory {
        available: count_status(ps, Status::Available) as u32,
        pending: count_status(ps, Status::Pending) as u32,
        adopted: count_status(ps, Status::Adopted) as u32,
    }
}

/// The petstore: five repositories and the operations that span them.
pub struct Petstore {
    pets: PetRepository,
    tags: TagRepository,
    categories: CategoryRepository,
    orders: OrderRepository,
    users: UserRepository,
}

impl Petstore {
    /// Every repository is well formed.
    pub closed spec fn wf(&self) -> bool {
        &&& self.pets.wf()
        &&& self.tags.wf()
        &&& self.categories.wf()
        &&& self.orders.wf()
        &&& self.users.wf()
    }

    /// The pet repository.
    pub closed spec fn pet_repo(&self) -> PetRepository {
        self.pets
    }

    /// The tag repository.
    pub closed spec fn tag_repo(&self) -> TagRepository {
        self.tags
    }

    /// The category repository.
    pub closed spec fn category_repo(&self) -> CategoryRepository {
        self.categories
    }

    /// The order repository.
    pub closed spec fn order_repo(&self) -> OrderRepository {
        self.orders
    }

    /// The user repository.
    pub closed spec fn user_repo(&self) -> UserRepository {
        self.users
    }

    /// The tag repository, where pet creation registers embedded tags.
    pub fn tag_repository(&self) -> (r: &TagRepository)
        ensures
            *r == self.tag_repo(),
    {
        &self.tags
    }

    /// The category repository, where pet creation registers embedded categories.
    pub fn category_repository(&self) -> (r: &CategoryRepository)
        ensures
            *r == self.category_repo(),
    {
        &self.categories
    }

    /// Whether identifiers are left for `pet`, its tags and its category.
    pub fn has_room_for_pet(&self, pet: &Pet) -> (r: bool)
        requires
            self.wf(),
        ensures
            r == (next_id(self.pet_repo()@.dom()) <= u64::MAX && next_id(self.tag_repo()@.dom())
                + tags_of(pet@).len() <= u64::MAX + 1 && (pet.category is Some ==> next_id(
                self.category_repo()@.dom(),
            ) <= u64::MAX)),
    {
        let tag_count: u64 = match &pet.tags {
            Some(t) => t.len() as u64,
            None => 0,
        };
        let category_count: u64 = if pet.category.is_some() {
            1
        } else {
            0
        };
        self.pets.has_ids_for(1) && self.tags.has_ids_for(tag_count)
            && self.categories.has_ids_for(category_count)
    }

    /// Whether identifiers are left for `n` more orders.
    pub fn has_room_for_orders(&self, n: u64) -> (r: bool)
        requires
            self.wf(),
        ensures
            r == (next_id(self.order_repo()@.dom()) + n <= u64::MAX + 1),
    {
        self.orders.has_ids_for(n)
    }

    /// Whether identifiers are left for `n` more users.
    pub fn has_room_for_users(&self, n: u64) -> (r: bool)
        requires
            self.wf(),
        ensures
            r == (next_id(self.user_repo()@.dom()) + n <= u64::MAX + 1),
    {
        self.users.has_ids_for(n)
    }

    /// Number of stored pets.
    pub fn pet_count(&self) -> (r: usize)
        requires
            self.wf(),
        ensures
            r == self.pet_repo()@.dom().len(),
    {
        proof {
            self.pets.lemma_wf();
            lemma_keys_count(self.pets@, self.pets.database().keys());
        }
        self.pets.len()
    }

    /// What a well-formed petstore guarantees of its repositories.
    pub proof fn lemma_wf(&self)
        requires
            self.wf(),
        ensures
            self.pet_repo().wf(),
            self.tag_repo().wf(),
            self.category_repo().wf(),
            self.order_repo().wf(),
            self.user_repo().wf(),
    {
    }

    /// A petstore with five empty repositories.
    pub fn new() -> (r: Self)
        ensures
            r.wf(),
            r.pet_repo()@ == Map::<u64, PetView>::empty(),
            r.tag_repo()@ == Map::<u64, Tag>::empty(),
            r.category_repo()@ == Map::<u64, Category>::empty(),
            r.order_repo()@ == Map::<u64, Order>::empty(),
            r.user_repo()@ == Map::<u64, User>::empty(),
            r.pet_repo().database().can_write(),
            r.tag_repo().database().can_write(),
            r.category_repo().database().can_write(),
            r.order_repo().database().can_write(),
            r.user_repo().database().can_write(),
    {
        Petstore {
            pets: PetRepository::new(),
            tags: TagRepository::new(),
            categories: CategoryRepository::new(),
            orders: OrderRepository::new(),
            users: UserRepository::new(),
        }
    }
}

impl Petstore {
    /// Registers each of `ts` in the tag repository in turn, stopping at the
    /// first refusal.
    fn register_tags(&mut self, ts: &Vec<Tag>) -> (r: PetstoreResult<()>)
        requires
            old(self).wf(),
            next_id(old(self).tags@.dom()) + ts.len() <= u64::MAX + 1,
        ensures
            final(self).wf(),
            final(self).pets == old(self).pets,
            final(self).categories == old(self).categories,
            final(self).orders == old(self).orders,
            final(self).users == old(self).users,
            final(self).tags.database().same_access(&old(self).tags.database()),
            if !old(self).tags.database().can_write() && ts.len() > 0 {
                r == Err::<(), PetstoreError>(PetstoreError::AccessConflict) && final(self).tags
                    == old(self).tags
            } else {
                let (m, all) = cascade_tags(old(self).tags@, ts@);
                &&& final(self).tags@ == m
                &&& r == (if all {
                    Ok::<(), PetstoreError>(())
                } else {
                    Err(PetstoreError::InvalidInput)
                })
            },
    {
        let n = ts.len();
        let mut i: usize = 0;
        assert(ts@.subrange(0, n as int) =~= ts@);
        while i < n
            invariant
                self.wf(),
                n == ts.len(),
                i <= n,
                next_id(old(self).tags@.dom()) + n <= u64::MAX + 1,
                self.pets == old(self).pets,
                self.categories == old(self).categories,
                self.orders == old(self).orders,
                self.users == old(self).users,
                self.tags.database().same_access(&old(self).tags.database()),
                i == 0 ==> self.tags == old(self).tags,
                i > 0 ==> old(self).tags.database().can_write(),
                next_id(self.tags@.dom()) == next_id(old(self).tags@.dom()) + i,
                cascade_tags(old(self).tags@, ts@) == cascade_tags(
                    self.tags@,
                    ts@.subrange(i as int, n as int),
                ),
            decreases n - i,
        {
            let ghost before = self.tags@;
            let ghost rest = ts@.subrange(i as int, n as int);
            let ghost keys = self.tags.database().keys();
            proof {
                assert(rest[0] == ts@[i as int]);
                assert(rest.drop_first() =~= ts@.subrange(i + 1, n as int));
                self.tags.lemma_wf();
            }
            let added = self.tags.add(ts[i].copy());
            match added {
                Ok(_) => {
                    proof {
                        let id = next_id(before.dom()) as u64;
                        law_sequential_ids(before, keys, Tag { id: Some(id), ..ts@[i as int] });
                    }
                },
                Err(e) => {
                    return Err(e);
                },
            }
            i = i + 1;
        }
        proof {
            assert(ts@.subrange(n as int, n as int) =~= Seq::<Tag>::empty());
        }
        Ok(())
    }
}

impl Petstore {
    /// Stores `pet` under the next pet identifier and returns that identifier;
    /// then registers each embedded tag and the embedded category in their own
    /// repositories. These steps are not atomic: a refusal of a tag or of the
    /// category is returned with the pet, and any tags registered before it,
    /// left in place.
    pub fn add_pet(&mut self, pet: Pet) -> (r: PetstoreResult<u64>)
        requires
            old(self).wf(),
            next_id(old(self).pet_repo()@.dom()) <= u64::MAX,
            next_id(old(self).tag_repo()@.dom()) + tags_of(pet@).len() <= u64::MAX + 1,
            pet.category is Some ==> next_id(old(self).category_repo()@.dom()) <= u64::MAX,
        ensures
            final(self).wf(),
            final(self).order_repo() == old(self).order_repo(),
            final(self).user_repo() == old(self).user_repo(),
            final(self).pet_repo().database().same_access(&old(self).pet_repo().database()),
            final(self).tag_repo().database().same_access(&old(self).tag_repo().database()),
            final(self).category_repo().database().same_access(
                &old(self).category_repo().database(),
            ),
            !old(self).pet_repo().database().can_write() ==> r == Err::<u64, PetstoreError>(
                PetstoreError::AccessConflict,
            ) && *final(self) == *old(self),
            old(self).pet_repo().database().can_write() && pet.id is Some ==> r == Err::<
                u64,
                PetstoreError,
            >(PetstoreError::InvalidInput) && *final(self) == *old(self),
            old(self).pet_repo().database().can_write() && pet.id is None ==> ({
                let id = next_id(old(self).pet_repo()@.dom()) as u64;
                let ts = tags_of(pet@);
                let (tm, all_tags) = cascade_tags(old(self).tag_repo()@, ts);
                let cid = next_id(old(self).category_repo()@.dom()) as u64;
                &&& final(self).pet_repo()@ == old(self).pet_repo()@.insert(
                    id,
                    pet_with_id(pet@, Some(id)),
                )
                &&& if !old(self).tag_repo().database().can_write() && ts.len() > 0 {
                    &&& r == Err::<u64, PetstoreError>(PetstoreError::AccessConflict)
                    &&& final(self).tag_repo() == old(self).tag_repo()
                    &&& final(self).category_repo() == old(self).category_repo()
                } else if !all_tags {
                    &&& r == Err::<u64, PetstoreError>(PetstoreError::InvalidInput)
                    &&& final(self).tag_repo()@ == tm
                    &&& final(self).category_repo() == old(self).category_repo()
                } else {
                    &&& final(self).tag_repo()@ == tm
                    &&& match pet.category {
                        None => r == Ok::<u64, PetstoreError>(id) && final(self).category_repo()
                            == old(self).category_repo(),
                        Some(c) => if !old(self).category_repo().database().can_write() {
                            r == Err::<u64, PetstoreError>(PetstoreError::AccessConflict)
                                && final(self).category_repo() == old(self).category_repo()
                        } else if c.id is Some {
                            r == Err::<u64, PetstoreError>(PetstoreError::InvalidInput)
                                && final(self).category_repo() == old(self).category_repo()
                        } else {
                            r == Ok::<u64, PetstoreError>(id) && final(self).category_repo()@
                                == old(self).category_repo()@.insert(
                                cid,
                                Category { id: Some(cid), ..c },
                            )
                        },
                    }
                }
            }),
    {
        let stored = self.pets.add(pet)?;
        let id = stored.id.unwrap();
        if let Some(tags) = &stored.tags {
            self.register_tags(tags)?;
        }
        if let Some(category) = &stored.category {
            self.categories.add(category.copy())?;
        }
        Ok(id)
    }
}

impl Petstore {
    /// The pet stored under `id`, if any.
    pub fn get_pet(&self, id: u64) -> (r: PetstoreResult<Option<Pet>>)
        requires
            self.wf(),
        ensures
            !self.pet_repo().database().can_read() ==> r == Err::<Option<Pet>, PetstoreError>(
                PetstoreError::AccessConflict,
            ),
            self.pet_repo().database().can_read() ==> (r matches Ok(o) && match o {
                Some(p) => self.pet_repo()@.contains_key(id) && p@ == self.pet_repo()@[id],
                None => !self.pet_repo()@.contains_key(id),
            }),
    {
        self.pets.get(id)
    }

    /// Replaces the stored pet that has the identifier of `pet`.
    pub fn update_pet(&mut self, pet: Pet) -> (r: PetstoreResult<Pet>)
        requires
            old(self).wf(),
        ensures
            final(self).wf(),
            final(self).tag_repo() == old(self).tag_repo(),
            final(self).category_repo() == old(self).category_repo(),
            final(self).order_repo() == old(self).order_repo(),
            final(self).user_repo() == old(self).user_repo(),
            final(self).pet_repo().database().same_access(&old(self).pet_repo().database()),
            r is Err ==> *final(self) == *old(self),
            r == Err::<Pet, PetstoreError>(PetstoreError::AccessConflict) <==> !old(
                self,
            ).pet_repo().database().can_write(),
            old(self).pet_repo().database().can_write() ==> match pet.id {
                None => r == Err::<Pet, PetstoreError>(PetstoreError::MissingIdentifier),
                Some(id) => if old(self).pet_repo()@.contains_key(id) {
                    (r matches Ok(p) && p@ == pet@ && final(self).pet_repo()@ == old(
                        self,
                    ).pet_repo()@.insert(id, pet@))
                } else {
                    r == Err::<Pet, PetstoreError>(PetstoreError::MissingPet)
                },
            },
    {
        self.pets.update(pet)
    }

    /// The pets whose status is unset or among `statuses`, ascending by identifier.
    pub fn get_pets_by_status(&self, statuses: Vec<Status>) -> (r: PetstoreResult<Vec<Pet>>)
        requires
            self.wf(),
        ensures
            !self.pet_repo().database().can_read() ==> r == Err::<Vec<Pet>, PetstoreError>(
                PetstoreError::AccessConflict,
            ),
            self.pet_repo().database().can_read() ==> (r matches Ok(v) && v@.map_values(
                |p: Pet| p@,
            ) == select(
                self.pet_repo().database().keys(),
                self.pet_repo()@,
                |p: PetView| status_selected(p.status, statuses@),
            )),
    {
        let filter = StatusFilter { statuses };
        let r = self.pets.find(&filter);
        proof {
            assert((|v: PetView| filter.spec_matches(v)) =~= (|p: PetView|
                status_selected(p.status, statuses@)));
        }
        r
    }

    /// The pets that have, for each name in `tags`, a tag of that name,
    /// ascending by identifier.
    pub fn find_pets_by_tag(&self, tags: Vec<String>) -> (r: PetstoreResult<Vec<Pet>>)
        requires
            self.wf(),
        ensures
            !self.pet_repo().database().can_read() ==> r == Err::<Vec<Pet>, PetstoreError>(
                PetstoreError::AccessConflict,
            ),
            self.pet_repo().database().can_read() ==> (r matches Ok(v) && v@.map_values(
                |p: Pet| p@,
            ) == select(
                self.pet_repo().database().keys(),
                self.pet_repo()@,
                |p: PetView| has_all_tags(p.tags, tags@),
            )),
    {
        let filter = TagFilter { tags };
        let r = self.pets.find(&filter);
        proof {
            assert((|v: PetView| filter.spec_matches(v)) =~= (|p: PetView|
                has_all_tags(p.tags, tags@)));
        }
        r
    }

    /// Removes the pet stored under `id`; fails with `MissingPet` when there is none.
    pub fn delete_pet(&mut self, id: u64) -> (r: PetstoreResult<()>)
        requires
            old(self).wf(),
        ensures
            final(self).wf(),
            final(self).tag_repo() == old(self).tag_repo(),
            final(self).category_repo() == old(self).category_repo(),
            final(self).order_repo() == old(self).order_repo(),
            final(self).user_repo() == old(self).user_repo(),
            final(self).pet_repo().database().same_access(&old(self).pet_repo().database()),
            !old(self).pet_repo().database().can_write() ==> *final(self) == *old(self),
            old(self).pet_repo().database().can_write() ==> final(self).pet_repo()@ == old(
                self,
            ).pet_repo()@.remove(id),
            r == (if !old(self).pet_repo().database().can_write() {
                Err::<(), PetstoreError>(PetstoreError::AccessConflict)
            } else if !old(self).pet_repo()@.contains_key(id) {
                Err(PetstoreError::MissingPet)
            } else {
                Ok(())
            }),
    {
        match self.pets.delete(id)? {
            Some(_) => Ok(()),
            None => Err(PetstoreError::MissingPet),
        }
    }

    /// Sets the name and the status of the pet stored under `id`, each only
    /// when given, and returns the updated pet.
    pub fn update_pet_name_status(&mut self, pet_id: u64, name: Option<String>, status: Option<Status>) -> (r:
        PetstoreResult<Pet>)
        requires
            old(self).wf(),
        ensures
            final(self).wf(),
            final(self).tag_repo() == old(self).tag_repo(),
            final(self).category_repo() == old(self).category_repo(),
            final(self).order_repo() == old(self).order_repo(),
            final(self).user_repo() == old(self).user_repo(),
            final(self).pet_repo().database().same_access(&old(self).pet_repo().database()),
            r is Err ==> *final(self) == *old(self),
            !old(self).pet_repo().database().can_write() ==> r == Err::<Pet, PetstoreError>(
                PetstoreError::AccessConflict,
            ),
            old(self).pet_repo().database().can_write() ==> if old(self).pet_repo()@.contains_key(pet_id) {
                (r matches Ok(p) && p@ == patched(old(self).pet_repo()@[pet_id], name, status)
                    && final(self).pet_repo()@ == old(self).pet_repo()@.insert(pet_id, p@))
            } else {
                r == Err::<Pet, PetstoreError>(PetstoreError::MissingPet)
            },
    {
        self.pets.update_name_status(pet_id, name, status)
    }
}

impl Petstore {
    /// Counts the stored pets per status; pets without a status are counted nowhere.
    pub fn get_inventory(&self) -> (r: PetstoreResult<Inventory>)
        requires
            self.wf(),
            self.pet_repo()@.dom().len() <= u32::MAX,
        ensures
            r == (if self.pet_repo().database().can_read() {
                Ok::<Inventory, PetstoreError>(inventory_of(self.pet_repo().matching(&AnyPet)))
            } else {
                Err(PetstoreError::AccessConflict)
            }),
    {
        let pets = self.pets.find(&AnyPet)?;
        let ghost all = pets@.map_values(|p: Pet| p@);
        proof {
            self.pets.lemma_wf();
            lemma_keys_count(self.pets@, self.pets.database().keys());
            lemma_select_len(
                self.pets.database().keys(),
                self.pets@,
                |v: PetView| AnyPet.spec_matches(v),
            );
            reveal(Seq::filter);
        }
        let mut inventory = Inventory { available: 0, pending: 0, adopted: 0 };
        let n = pets.len();
        let mut i: usize = 0;
        while i < n
            invariant
                n == pets.len(),
                n <= u32::MAX,
                all == pets@.map_values(|p: Pet| p@),
                i <= n,
                count_status(all.subrange(0, i as int), Status::Available) <= i,
                count_status(all.subrange(0, i as int), Status::Pending) <= i,
                count_status(all.subrange(0, i as int), Status::Adopted) <= i,
                inventory == inventory_of(all.subrange(0, i as int)),
            decreases n - i,
        {
            proof {
                reveal(Seq::filter);
                assert(all.subrange(0, i + 1).drop_last() =~= all.subrange(0, i as int));
                assert(all.subrange(0, i + 1).last() == pets@[i as int]@);
            }
            match pets[i].status {
                Some(Status::Available) => inventory.available = inventory.available + 1,
                Some(Status::Pending) => inventory.pending = inventory.pending + 1,
                Some(Status::Adopted) => inventory.adopted = inventory.adopted + 1,
                None => {},
            }
            i = i + 1;
        }
        assert(all.subrange(0, n as int) =~= all);
        Ok(inventory)
    }

    /// Places `order` under the next order identifier and returns that
    /// identifier; an order whose status is set is refused as not new.
    pub fn add_order(&mut self, order: Order) -> (r: PetstoreResult<u64>)
        requires
            old(self).wf(),
            next_id(old(self).order_repo()@.dom()) <= u64::MAX,
        ensures
            final(self).wf(),
            final(self).pet_repo() == old(self).pet_repo(),
            final(self).tag_repo() == old(self).tag_repo(),
            final(self).category_repo() == old(self).category_repo(),
            final(self).user_repo() == old(self).user_repo(),
            final(self).order_repo().database().same_access(&old(self).order_repo().database()),
            r is Err ==> *final(self) == *old(self),
            r == (if !old(self).order_repo().database().can_write() {
                Err::<u64, PetstoreError>(PetstoreError::AccessConflict)
            } else if order.status is Some {
                Err(PetstoreError::InvalidInput)
            } else {
                Ok(next_id(old(self).order_repo()@.dom()) as u64)
            }),
            r is Ok ==> final(self).order_repo()@ == old(self).order_repo()@.insert(
                next_id(old(self).order_repo()@.dom()) as u64,
                Order { id: Some(next_id(old(self).order_repo()@.dom()) as u64), ..order },
            ),
    {
        let stored = self.orders.add(order)?;
        Ok(stored.id.unwrap())
    }

    /// Removes the order stored under `id`; returns whether there was one.
    pub fn delete_order(&mut self, id: u64) -> (r: PetstoreResult<bool>)
        requires
            old(self).wf(),
        ensures
            final(self).wf(),
            final(self).pet_repo() == old(self).pet_repo(),
            final(self).tag_repo() == old(self).tag_repo(),
            final(self).category_repo() == old(self).category_repo(),
            final(self).user_repo() == old(self).user_repo(),
            final(self).order_repo().database().same_access(&old(self).order_repo().database()),
            r == (if !old(self).order_repo().database().can_write() {
                Err::<bool, PetstoreError>(PetstoreError::AccessConflict)
            } else {
                Ok(old(self).order_repo()@.contains_key(id))
            }),
            r is Err ==> *final(self) == *old(self),
            r is Ok ==> final(self).order_repo()@ == old(self).order_repo()@.remove(id),
    {
        let removed = self.orders.delete(id)?;
        Ok(removed.is_some())
    }

    /// The order stored under `id`, if any.
    pub fn find_order(&self, id: u64) -> (r: PetstoreResult<Option<Order>>)
        requires
            self.wf(),
        ensures
            r == (if !self.order_repo().database().can_read() {
                Err::<Option<Order>, PetstoreError>(PetstoreError::AccessConflict)
            } else if self.order_repo()@.contains_key(id) {
                Ok(Some(self.order_repo()@[id]))
            } else {
                Ok(None)
            }),
    {
        self.orders.get(id)
    }
}

impl Petstore {
    /// Adds `new_user` under the next user identifier and returns its username.
    pub fn add_user(&mut self, new_user: User) -> (r: PetstoreResult<String>)
        requires
            old(self).wf(),
            next_id(old(self).user_repo()@.dom()) <= u64::MAX,
        ensures
            final(self).wf(),
            final(self).pet_repo() == old(self).pet_repo(),
            final(self).tag_repo() == old(self).tag_repo(),
            final(self).category_repo() == old(self).category_repo(),
            final(self).order_repo() == old(self).order_repo(),
            final(self).user_repo().database().same_access(&old(self).user_repo().database()),
            r is Err ==> *final(self) == *old(self),
            r == (if !old(self).user_repo().database().can_write() {
                Err::<String, PetstoreError>(PetstoreError::AccessConflict)
            } else if new_user.id is Some {
                Err(PetstoreError::InvalidInput)
            } else if username_taken(old(self).user_repo()@, new_user.username@) {
                Err(PetstoreError::RedundantUserName)
            } else {
                Ok(new_user.username)
            }),
            r is Ok ==> final(self).user_repo()@ == old(self).user_repo()@.insert(
                next_id(old(self).user_repo()@.dom()) as u64,
                User { id: Some(next_id(old(self).user_repo()@.dom()) as u64), ..new_user },
            ),
    {
        let stored = self.users.add(new_user)?;
        Ok(stored.username)
    }

    /// Adds each of `users` in turn and returns their usernames; stops at the
    /// first refusal, which is returned with the users added before it kept.
    pub fn add_users(&mut self, users: Vec<User>) -> (r: PetstoreResult<Vec<String>>)
        requires
            old(self).wf(),
            next_id(old(self).user_repo()@.dom()) + users.len() <= u64::MAX + 1,
        ensures
            final(self).wf(),
            final(self).pet_repo() == old(self).pet_repo(),
            final(self).tag_repo() == old(self).tag_repo(),
            final(self).category_repo() == old(self).category_repo(),
            final(self).order_repo() == old(self).order_repo(),
            final(self).user_repo().database().same_access(&old(self).user_repo().database()),
            if !old(self).user_repo().database().can_write() && users.len() > 0 {
                r == Err::<Vec<String>, PetstoreError>(PetstoreError::AccessConflict)
                    && *final(self) == *old(self)
            } else {
                let (m, refusal) = cascade_users(old(self).user_repo()@, users@);
                &&& final(self).user_repo()@ == m
                &&& match refusal {
                    Some(e) => r == Err::<Vec<String>, PetstoreError>(e),
                    None => (r matches Ok(names) && names@ == users@.map_values(
                        |u: User| u.username,
                    )),
                }
            },
    {
        let n = users.len();
        let mut names: Vec<String> = Vec::new();
        let mut i: usize = 0;
        assert(users@.subrange(0, n as int) =~= users@);
        while i < n
            invariant
                self.wf(),
                n == users.len(),
                i <= n,
                next_id(old(self).users@.dom()) + n <= u64::MAX + 1,
                self.pets == old(self).pets,
                self.tags == old(self).tags,
                self.categories == old(self).categories,
                self.orders == old(self).orders,
                self.users.database().same_access(&old(self).users.database()),
                i == 0 ==> *self == *old(self),
                i > 0 ==> old(self).users.database().can_write(),
                next_id(self.users@.dom()) == next_id(old(self).users@.dom()) + i,
                names@ == users@.subrange(0, i as int).map_values(|u: User| u.username),
                cascade_users(old(self).users@, users@) == cascade_users(
                    self.users@,
                    users@.subrange(i as int, n as int),
                ),
            decreases n - i,
        {
            let ghost before = self.users@;
            let ghost rest = users@.subrange(i as int, n as int);
            let ghost keys = self.users.database().keys();
            proof {
                assert(rest[0] == users@[i as int]);
                assert(rest.drop_first() =~= users@.subrange(i + 1, n as int));
                self.users.lemma_wf();
            }
            let stored = self.users.add(users[i].copy());
            match stored {
                Ok(u) => {
                    proof {
                        let id = next_id(before.dom()) as u64;
                        law_sequential_ids(before, keys, User { id: Some(id), ..users@[i as int] });
                    }
                    names.push(u.username);
                    assert(names@ =~= users@.subrange(0, i + 1).map_values(|u: User| u.username));
                },
                Err(e) => {
                    return Err(e);
                },
            }
            i = i + 1;
        }
        proof {
            assert(users@.subrange(n as int, n as int) =~= Seq::<User>::empty());
        }
        Ok(names)
    }

    /// The user named `name`, if any.
    pub fn get_user(&self, name: String) -> (r: PetstoreResult<Option<User>>)
        requires
            self.wf(),
        ensures
            !self.user_repo().database().can_read() ==> r == Err::<Option<User>, PetstoreError>(
                PetstoreError::AccessConflict,
            ),
            self.user_repo().database().can_read() ==> (r matches Ok(o) && match o {
                Some(u) => exists|k: u64|
                    self.user_repo()@.contains_key(k) && u == self.user_repo()@[k]
                        && u.username@ == name@,
                None => !username_taken(self.user_repo()@, name@),
            }),
    {
        let filter = UsernameIs { name };
        let r = self.users.find_one(&filter);
        proof {
            self.users.lemma_wf();
            let keys = self.users.database().keys();
            if r is Ok && r->Ok_0 is Some {
                let u = r->Ok_0->Some_0;
                let i = choose|i: int|
                    0 <= i < keys.len() && u == self.users@[keys[i]] && filter.spec_matches(u)
                        && forall|j: int| 0 <= j < i ==> !filter.spec_matches(
                            #[trigger] self.users@[keys[j]],
                        );
                assert(keys.contains(keys[i]));
            }
            if r is Ok && r->Ok_0 is None {
                if username_taken(self.users@, name@) {
                    let k = choose|k: u64| self.users@.contains_key(k) && (#[trigger] self.users@[k]).username@ == name@;
                    assert(!filter.spec_matches(self.users@[k]));
                }
            }
        }
        r
    }

    /// Removes the user named `name`, if there is one; absence is no error.
    pub fn delete_user(&mut self, name: String) -> (r: PetstoreResult<()>)
        requires
            old(self).wf(),
        ensures
            final(self).wf(),
            final(self).pet_repo() == old(self).pet_repo(),
            final(self).tag_repo() == old(self).tag_repo(),
            final(self).category_repo() == old(self).category_repo(),
            final(self).order_repo() == old(self).order_repo(),
            final(self).user_repo().database().same_access(&old(self).user_repo().database()),
            !old(self).user_repo().database().can_write() ==> r == Err::<(), PetstoreError>(
                PetstoreError::AccessConflict,
            ) && *final(self) == *old(self),
            old(self).user_repo().database().can_write() ==> r == Ok::<(), PetstoreError>(()) && if username_taken(
                old(self).user_repo()@,
                name@,
            ) {
                exists|k: u64|
                    old(self).user_repo()@.contains_key(k) && (#[trigger] old(self).user_repo()@[k]).username@ == name@
                        && final(self).user_repo()@ == old(self).user_repo()@.remove(k)
            } else {
                final(self).user_repo()@ == old(self).user_repo()@
            },
    {
        let removed = self.users.delete(name)?;
        proof {
            if removed is Some {
                let k = removed->Some_0.id->Some_0;
                assert(old(self).users@.contains_key(k) && old(self).users@[k].username@ == name@);
            }
        }
        Ok(())
    }

    /// Replaces the user that has the username of `updated_user`, keeping the
    /// stored identifier; fails with `MissingUser` when there is none.
    pub fn update_user(&mut self, updated_user: User) -> (r: PetstoreResult<User>)
        requires
            old(self).wf(),
        ensures
            final(self).wf(),
            final(self).pet_repo() == old(self).pet_repo(),
            final(self).tag_repo() == old(self).tag_repo(),
            final(self).category_repo() == old(self).category_repo(),
            final(self).order_repo() == old(self).order_repo(),
            final(self).user_repo().database().same_access(&old(self).user_repo().database()),
            r is Err ==> *final(self) == *old(self),
            r == Err::<User, PetstoreError>(PetstoreError::AccessConflict) <==> !old(
                self,
            ).user_repo().database().can_write(),
            old(self).user_repo().database().can_write() ==> if username_taken(
                old(self).user_repo()@,
                updated_user.username@,
            ) {
                exists|k: u64|
                    old(self).user_repo()@.contains_key(k) && old(self).user_repo()@[k].username@
                        == updated_user.username@ && r == Ok::<User, PetstoreError>(
                        User { id: Some(k), ..updated_user },
                    ) && final(self).user_repo()@ == old(self).user_repo()@.insert(
                        k,
                        User { id: Some(k), ..updated_user },
                    )
            } else {
                r == Err::<User, PetstoreError>(PetstoreError::MissingUser)
            },
    {
        self.users.update(updated_user)
    }
}

} // verus!
