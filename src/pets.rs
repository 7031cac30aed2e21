use vstd::prelude::*;

use crate::error::{PetstoreError, PetstoreResult};
use crate::matcher::Matcher;
use crate::model::{pet_with_id, Pet, PetView, Status};
use crate::store::{ascending_keys, next_id, select, InMemoryDatabase};

verus! {

/// Reading a pet back right after adding it gives the pet that was added,
/// except that its identifier is now set.
pub proof fn law_get_after_add(before: Map<u64, PetView>, pet: PetView)
    requires
        pet.id is None,
    ensures
        ({
            let id = next_id(before.dom()) as u64;
            let after = before.insert(id, pet_with_id(pet, Some(id)));
            &&& after.contains_key(id)
            &&& after[id].id == Some(id)
            &&& pet_with_id(after[id], None) == pet
        }),
{
}

/// The pets of the store, keyed by their identifiers.
pub struct PetRepository {
    pets: InMemoryDatabase<Pet>,
}

impl View for PetRepository {
    type V = Map<u64, PetView>;

    closed spec fn view(&self) -> Map<u64, PetView> {
        self.pets@.map_values(|p: Pet| p@)
    }
}

/// `v` with its name replaced when `name` is given and its status replaced
/// when `status` is given.
pub open spec fn patched(v: PetView, name: Option<String>, status: Option<Status>) -> PetView {
    PetView {
        name: match name {
            Some(n) => n,
            None => v.name,
        },
        status: match status {
            Some(s) => Some(s),
            None => v.status,
        },
        ..v
    }
}

impl PetRepository {
    /// The store is consistent and each pet carries the key it is stored under.
    pub closed spec fn wf(&self) -> bool {
        &&& self.pets.wf()
        &&& forall|k: u64| #[trigger] self.pets@.contains_key(k) ==> self.pets@[k].id == Some(k)
    }

    /// The underlying store, for its keys and its access state.
    pub closed spec fn database(&self) -> InMemoryDatabase<Pet> {
        self.pets
    }

    /// What a well-formed repository guarantees of its entries.
    pub proof fn lemma_wf(&self)
        requires
            self.wf(),
        ensures
            ascending_keys(self@, self.database().keys()),
            forall|k: u64| #[trigger] self@.contains_key(k) ==> self@[k].id == Some(k),
    {
        self.pets.lemma_keys();
    }

    proof fn lemma_dom(&self)
        ensures
            self@.dom() == self.pets@.dom(),
    {
        assert(self@.dom() =~= self.pets@.dom());
    }

    /// The stored pets that pass `m`, in ascending order of identifier.
    pub open spec fn matching<M: Matcher<Pet>>(&self, m: &M) -> Seq<PetView> {
        select(self.database().keys(), self@, |v: PetView| m.spec_matches(v))
    }

    /// An empty repository.
    pub fn new() -> (r: Self)
        ensures
            r.wf(),
            r@ == Map::<u64, PetView>::empty(),
            r.database().can_write(),
    {
        let r = PetRepository { pets: InMemoryDatabase::new() };
        assert(r@ =~= Map::<u64, PetView>::empty());
        r
    }

    /// The pet stored under `id`, if any.
    pub fn get(&self, id: u64) -> (r: PetstoreResult<Option<Pet>>)
        requires
            self.wf(),
        ensures
            !self.database().can_read() ==> r == Err::<Option<Pet>, PetstoreError>(
                PetstoreError::AccessConflict,
            ),
            self.database().can_read() ==> (r matches Ok(o) && match o {
                Some(p) => self@.contains_key(id) && p@ == self@[id],
                None => !self@.contains_key(id),
            }),
    {
        self.pets.read()?;
        match self.pets.get(id) {
            Some(p) => Ok(Some(p.copy())),
            None => Ok(None),
        }
    }

    /// Whether `n` more pets can be given identifiers.
    pub fn has_ids_for(&self, n: u64) -> (r: bool)
        requires
            self.wf(),
        ensures
            r == (next_id(self@.dom()) + n <= u64::MAX + 1),
    {
        proof {
            self.lemma_dom();
        }
        self.pets.has_ids_for(n)
    }

    /// Number of stored pets.
    pub fn len(&self) -> (r: usize)
        requires
            self.wf(),
        ensures
            r == self.database().keys().len(),
    {
        self.pets.len()
    }

    /// All stored pets that pass `m`, sorted ascending by identifier.
    pub fn find<M: Matcher<Pet>>(&self, m: &M) -> (r: PetstoreResult<Vec<Pet>>)
        requires
            self.wf(),
        ensures
            !self.database().can_read() ==> r == Err::<Vec<Pet>, PetstoreError>(
                PetstoreError::AccessConflict,
            ),
            self.database().can_read() ==> (r matches Ok(v) && v@.map_values(|p: Pet| p@)
                == self.matching(m)),
    {
        self.pets.read()?;
        let ghost keys = self.pets.keys();
        let ghost keep = |v: PetView| m.spec_matches(v);
        let mut out: Vec<Pet> = Vec::new();
        let n = self.pets.len();
        let mut i: usize = 0;
        while i < n
            invariant
                self.wf(),
                n == keys.len(),
                keys == self.pets.keys(),
                keep == (|v: PetView| m.spec_matches(v)),
                i <= n,
                out@.map_values(|p: Pet| p@) == select(keys.subrange(0, i as int), self@, keep),
            decreases n - i,
        {
            let id = self.pets.key_at(i);
            proof {
                self.pets.lemma_keys();
                assert(keys.contains(id));
            }
            let p = self.pets.get(id).unwrap();
            let ghost before = out@;
            let ghost sub = keys.subrange(0, i + 1);
            proof {
                assert(sub.drop_last() =~= keys.subrange(0, i as int));
                assert(sub.last() == id);
                assert(self@.contains_key(id));
                assert(self@[id] == p@);
            }
            let keep_it = m.matches(p);
            if keep_it {
                out.push(p.copy());
                assert(out@.map_values(|p: Pet| p@) =~= before.map_values(|p: Pet| p@).push(
                    self@[id],
                ));
            }
            proof {
                assert(keep(self@[id]) == keep_it);
                assert(select(sub, self@, keep) == (if keep(self@[id]) {
                    select(keys.subrange(0, i as int), self@, keep).push(self@[id])
                } else {
                    select(keys.subrange(0, i as int), self@, keep)
                }));
            }
            assert(out@.map_values(|p: Pet| p@) == select(sub, self@, keep));
            i = i + 1;
        }
        assert(keys.subrange(0, n as int) =~= keys);
        Ok(out)
    }

    /// Stores `new_pet` under the next identifier and returns it with that
    /// identifier set; a pet that already carries an identifier is refused.
    pub fn add(&mut self, new_pet: Pet) -> (r: PetstoreResult<Pet>)
        requires
            old(self).wf(),
            next_id(old(self)@.dom()) <= u64::MAX,
        ensures
            final(self).wf(),
            final(self).database().same_access(&old(self).database()),
            !old(self).database().can_write() ==> r == Err::<Pet, PetstoreError>(
                PetstoreError::AccessConflict,
            ) && *final(self) == *old(self),
            old(self).database().can_write() && new_pet.id is Some ==> r == Err::<
                Pet,
                PetstoreError,
            >(PetstoreError::InvalidInput) && *final(self) == *old(self),
            old(self).database().can_write() && new_pet.id is None ==> (r matches Ok(p) && {
                let id = next_id(old(self)@.dom()) as u64;
                &&& p@ == pet_with_id(new_pet@, Some(id))
                &&& final(self)@ == old(self)@.insert(id, p@)
                &&& final(self).database().keys() == old(self).database().keys().push(id)
            }),
    {
        self.pets.write()?;
        if new_pet.id.is_some() {
            return Err(PetstoreError::InvalidInput);
        }
        proof {
            self.lemma_dom();
        }
        let id = self.pets.fresh_id();
        let mut new_pet = new_pet;
        new_pet.id = Some(id);
        let stored = new_pet.copy();
        self.pets.insert_fresh(id, stored);
        proof {
            assert(self@ =~= old(self)@.insert(id, new_pet@));
        }
        Ok(new_pet)
    }

    /// Replaces the stored pet that has the identifier of `pet`.
    pub fn update(&mut self, pet: Pet) -> (r: PetstoreResult<Pet>)
        requires
            old(self).wf(),
        ensures
            final(self).wf(),
            final(self).database().same_access(&old(self).database()),
            final(self).database().keys() == old(self).database().keys(),
            r is Err ==> *final(self) == *old(self),
            r == Err::<Pet, PetstoreError>(PetstoreError::AccessConflict) <==> !old(
                self,
            ).database().can_write(),
            old(self).database().can_write() ==> match pet.id {
                None => r == Err::<Pet, PetstoreError>(PetstoreError::MissingIdentifier),
                Some(id) => if old(self)@.contains_key(id) {
                    (r matches Ok(p) && p@ == pet@ && final(self)@ == old(self)@.insert(id, pet@))
                } else {
                    r == Err::<Pet, PetstoreError>(PetstoreError::MissingPet)
                },
            },
    {
        self.pets.write()?;
        let id = match pet.id {
            Some(id) => id,
            None => {
                return Err(PetstoreError::MissingIdentifier);
            },
        };
        if !self.pets.contains(id) {
            return Err(PetstoreError::MissingPet);
        }
        let stored = pet.copy();
        self.pets.replace(id, stored);
        proof {
            assert(self@ =~= old(self)@.insert(id, pet@));
        }
        Ok(pet)
    }

    /// Removes the pet stored under `id`, returning it; absence is no error.
    pub fn delete(&mut self, id: u64) -> (r: PetstoreResult<Option<Pet>>)
        requires
            old(self).wf(),
        ensures
            final(self).wf(),
            final(self).database().same_access(&old(self).database()),
            !old(self).database().can_write() ==> r == Err::<Option<Pet>, PetstoreError>(
                PetstoreError::AccessConflict,
            ) && *final(self) == *old(self),
            old(self).database().can_write() ==> (r matches Ok(o) && final(self)@ == old(self)@.remove(id) && match o {
                Some(p) => old(self)@.contains_key(id) && p@ == old(self)@[id],
                None => !old(self)@.contains_key(id),
            }),
    {
        self.pets.write()?;
        let r = self.pets.remove(id);
        proof {
            assert(self@ =~= old(self)@.remove(id));
        }
        Ok(r)
    }

    /// Sets the name and the status of the pet stored under `id`, each only
    /// when given, and returns the updated pet.
    pub fn update_name_status(&mut self, id: u64, name: Option<String>, status: Option<Status>) -> (r:
        PetstoreResult<Pet>)
        requires
            old(self).wf(),
        ensures
            final(self).wf(),
            final(self).database().same_access(&old(self).database()),
            final(self).database().keys() == old(self).database().keys(),
            r is Err ==> *final(self) == *old(self),
            !old(self).database().can_write() ==> r == Err::<Pet, PetstoreError>(
                PetstoreError::AccessConflict,
            ),
            old(self).database().can_write() ==> if old(self)@.contains_key(id) {
                (r matches Ok(p) && p@ == patched(old(self)@[id], name, status) && final(self)@
                    == old(self)@.insert(id, p@))
            } else {
                r == Err::<Pet, PetstoreError>(PetstoreError::MissingPet)
            },
    {
        self.pets.write()?;
        let mut pet = match self.pets.get(id) {
            Some(p) => p.copy(),
            None => {
                return Err(PetstoreError::MissingPet);
            },
        };
        if let Some(s) = status {
            pet.status = Some(s);
        }
        if let Some(n) = name {
            pet.name = n;
        }
        let stored = pet.copy();
        self.pets.replace(id, stored);
        proof {
            assert(self@ =~= old(self)@.insert(id, pet@));
        }
        Ok(pet)
    }
}

} // verus!
