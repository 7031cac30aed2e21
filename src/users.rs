use vstd::prelude::*;

use crate::error::{PetstoreError, PetstoreResult};
use crate::matcher::Matcher;
use crate::model::User;
use crate::store::{ascending_keys, next_id, InMemoryDatabase};

verus! {

/// Some user in `m` has the username `name`.
pub open spec fn username_taken(m: Map<u64, User>, name: Seq<char>) -> bool {
    exists|k: u64| m.contains_key(k) && (#[trigger] m[k]).username@ == name
}

/// No two users in `m` share a username.
pub open spec fn usernames_unique(m: Map<u64, User>) -> bool {
    forall|a: u64, b: u64|
        m.contains_key(a) && m.contains_key(b) && (#[trigger] m[a]).username@ == (#[trigger] m[b]).username@
            ==> a == b
}

/// Reading a user back by username right after adding it gives the user that
/// was added, except that its identifier is now set.
pub proof fn law_get_after_add(before: Map<u64, User>, user: User)
    requires
        user.id is None,
    ensures
        ({
            let id = next_id(before.dom()) as u64;
            let after = before.insert(id, User { id: Some(id), ..user });
            &&& after.contains_key(id)
            &&& after[id].username@ == user.username@
            &&& after[id].id == Some(id)
            &&& User { id: None, ..after[id] } == user
        }),
{
}

/// Adding two users with the same username: once the first is added the
/// name is taken, so the second is refused, and exactly one stored user has
/// that name.
pub proof fn law_duplicate_username(before: Map<u64, User>, first: User, second: User)
    requires
        usernames_unique(before),
        first.id is None,
        !username_taken(before, first.username@),
        second.username@ == first.username@,
    ensures
        ({
            let id = next_id(before.dom()) as u64;
            let after = before.insert(id, User { id: Some(id), ..first });
            &&& username_taken(after, second.username@)
            &&& usernames_unique(after)
            &&& forall|k: u64|
                after.contains_key(k) && (#[trigger] after[k]).username@ == first.username@
                    ==> k == id
        }),
{
    let id = next_id(before.dom()) as u64;
    let after = before.insert(id, User { id: Some(id), ..first });
    assert(after.contains_key(id) && after[id].username@ == second.username@);
    assert forall|a: u64, b: u64|
        after.contains_key(a) && after.contains_key(b) && (#[trigger] after[a]).username@ == (
        #[trigger] after[b]).username@ implies a == b by {
        if a != id && b != id {
            assert(before[a] == after[a] && before[b] == after[b]);
        } else if a != id {
            assert(before.contains_key(a) && before[a].username@ == first.username@);
        } else if b != id {
            assert(before.contains_key(b) && before[b].username@ == first.username@);
        }
    }
    assert forall|k: u64|
        after.contains_key(k) && (#[trigger] after[k]).username@ == first.username@ implies k == id by {
        if k != id {
            assert(before.contains_key(k) && before[k].username@ == first.username@);
        }
    }
}

/// The users of the store, keyed by their identifiers.
pub struct UserRepository {
    users: InMemoryDatabase<User>,
}

impl View for UserRepository {
    type V = Map<u64, User>;

    closed spec fn view(&self) -> Map<u64, User> {
        self.users@
    }
}

impl UserRepository {
    /// The store is consistent, each user carries the key it is stored under,
    /// and usernames are unique.
    pub closed spec fn wf(&self) -> bool {
        &&& self.users.wf()
        &&& forall|k: u64| #[trigger] self.users@.contains_key(k) ==> self.users@[k].id == Some(k)
        &&& usernames_unique(self.users@)
    }

    /// The underlying store, for its keys and its access state.
    pub closed spec fn database(&self) -> InMemoryDatabase<User> {
        self.users
    }

    /// What a well-formed repository guarantees of its entries.
    pub proof fn lemma_wf(&self)
        requires
            self.wf(),
        ensures
            ascending_keys(self@, self.database().keys()),
            forall|k: u64| #[trigger] self@.contains_key(k) ==> self@[k].id == Some(k),
            usernames_unique(self@),
    {
        self.users.lemma_keys();
    }

    /// An empty repository.
    pub fn new() -> (r: Self)
        ensures
            r.wf(),
            r@ == Map::<u64, User>::empty(),
            r.database().can_write(),
    {
        UserRepository { users: InMemoryDatabase::new() }
    }

    /// Whether `n` more users can be given identifiers.
    pub fn has_ids_for(&self, n: u64) -> (r: bool)
        requires
            self.wf(),
        ensures
            r == (next_id(self@.dom()) + n <= u64::MAX + 1),
    {
        self.users.has_ids_for(n)
    }

    /// The key of the user named `name`, if there is one.
    fn key_of(&self, name: &String) -> (r: Option<u64>)
        requires
            self.wf(),
        ensures
            match r {
                Some(k) => self@.contains_key(k) && self@[k].username@ == name@,
                None => !username_taken(self@, name@),
            },
    {
        let ghost keys = self.users.keys();
        proof {
            self.users.lemma_keys();
        }
        let n = self.users.len();
        let mut i: usize = 0;
        while i < n
            invariant
                self.wf(),
                keys == self.users.keys(),
                ascending_keys(self@, keys),
                n == keys.len(),
                i <= n,
                forall|t: int| 0 <= t < i ==> (#[trigger] self@[keys[t]]).username@ != name@,
            decreases n - i,
        {
            let k = self.users.key_at(i);
            assert(keys.contains(k));
            let u = self.users.get(k).unwrap();
            if u.username == *name {
                return Some(k);
            }
            i = i + 1;
        }
        proof {
            assert forall|k: u64| self@.contains_key(k) implies (#[trigger] self@[k]).username@
                != name@ by {
                assert(keys.contains(k));
                let t = choose|t: int| 0 <= t < keys.len() && keys[t] == k;
                assert(self@[keys[t]].username@ != name@);
            }
        }
        None
    }

    /// Stores `new_user` under the next identifier and returns it with that
    /// identifier set; refuses a user that carries an identifier, and one whose
    /// username is taken.
    pub fn add(&mut self, new_user: User) -> (r: PetstoreResult<User>)
        requires
            old(self).wf(),
            next_id(old(self)@.dom()) <= u64::MAX,
        ensures
            final(self).wf(),
            final(self).database().same_access(&old(self).database()),
            r is Err ==> *final(self) == *old(self),
            r == Err::<User, PetstoreError>(PetstoreError::AccessConflict) <==> !old(
                self,
            ).database().can_write(),
            old(self).database().can_write() ==> if new_user.id is Some {
                r == Err::<User, PetstoreError>(PetstoreError::InvalidInput)
            } else if username_taken(old(self)@, new_user.username@) {
                r == Err::<User, PetstoreError>(PetstoreError::RedundantUserName)
            } else {
                let id = next_id(old(self)@.dom()) as u64;
                &&& r == Ok::<User, PetstoreError>(User { id: Some(id), ..new_user })
                &&& final(self)@ == old(self)@.insert(id, User { id: Some(id), ..new_user })
                &&& final(self).database().keys() == old(self).database().keys().push(id)
            },
    {
        self.users.write()?;
        if new_user.id.is_some() {
            return Err(PetstoreError::InvalidInput);
        }
        if self.key_of(&new_user.username).is_some() {
            return Err(PetstoreError::RedundantUserName);
        }
        let id = self.users.fresh_id();
        let mut new_user = new_user;
        new_user.id = Some(id);
        self.users.insert_fresh(id, new_user.copy());
        Ok(new_user)
    }

    /// The first user, in ascending order of identifier, that passes `m`.
    pub fn find_one<M: Matcher<User>>(&self, m: &M) -> (r: PetstoreResult<Option<User>>)
        requires
            self.wf(),
        ensures
            !self.database().can_read() ==> r == Err::<Option<User>, PetstoreError>(
                PetstoreError::AccessConflict,
            ),
            self.database().can_read() ==> (r matches Ok(o) && match o {
                Some(u) => exists|i: int|
                    0 <= i < self.database().keys().len() && u == self@[self.database().keys()[i]]
                        && m.spec_matches(u) && forall|j: int|
                        0 <= j < i ==> !m.spec_matches(
                            #[trigger] self@[self.database().keys()[j]],
                        ),
                None => forall|k: u64| #[trigger]
                    self@.contains_key(k) ==> !m.spec_matches(self@[k]),
            }),
    {
        self.users.read()?;
        let ghost keys = self.users.keys();
        proof {
            self.users.lemma_keys();
        }
        let n = self.users.len();
        let mut i: usize = 0;
        while i < n
            invariant
                self.wf(),
                keys == self.users.keys(),
                ascending_keys(self@, keys),
                n == keys.len(),
                i <= n,
                self.database().can_read(),
                forall|t: int| 0 <= t < i ==> !m.spec_matches(#[trigger] self@[keys[t]]),
            decreases n - i,
        {
            let k = self.users.key_at(i);
            assert(keys.contains(k));
            let u = self.users.get(k).unwrap();
            if m.matches(u) {
                return Ok(Some(u.copy()));
            }
            i = i + 1;
        }
        proof {
            assert forall|k: u64| #[trigger] self@.contains_key(k) implies !m.spec_matches(
                self@[k],
            ) by {
                assert(keys.contains(k));
                let t = choose|t: int| 0 <= t < keys.len() && keys[t] == k;
                assert(!m.spec_matches(self@[keys[t]]));
            }
        }
        Ok(None)
    }

    /// Removes the user named `name`, returning it; absence is no error.
    pub fn delete(&mut self, name: String) -> (r: PetstoreResult<Option<User>>)
        requires
            old(self).wf(),
        ensures
            final(self).wf(),
            final(self).database().same_access(&old(self).database()),
            !old(self).database().can_write() ==> r == Err::<Option<User>, PetstoreError>(
                PetstoreError::AccessConflict,
            ) && *final(self) == *old(self),
            old(self).database().can_write() ==> (r matches Ok(o) && match o {
                Some(u) => u.id matches Some(k) && old(self)@.contains_key(k) && u == old(
                    self,
                )@[k] && u.username@ == name@ && final(self)@ == old(self)@.remove(k),
                None => !username_taken(old(self)@, name@) && final(self)@ == old(self)@,
            }),
    {
        self.users.write()?;
        match self.key_of(&name) {
            Some(k) => {
                let r = self.users.remove(k);
                proof {
                    assert forall|a: u64, b: u64|
                        self.users@.contains_key(a) && self.users@.contains_key(b) && (
                        #[trigger] self.users@[a]).username@ == (#[trigger] self.users@[b]).username@
                        implies a == b by {
                        assert(old(self).users@.contains_key(a) && old(self).users@.contains_key(b));
                    }
                }
                Ok(r)
            },
            None => Ok(None),
        }
    }

    /// Replaces the user that has the username of `updated_user`, keeping the
    /// stored identifier, and returns the stored value.
    pub fn update(&mut self, updated_user: User) -> (r: PetstoreResult<User>)
        requires
            old(self).wf(),
        ensures
            final(self).wf(),
            final(self).database().same_access(&old(self).database()),
            final(self).database().keys() == old(self).database().keys(),
            r is Err ==> *final(self) == *old(self),
            r == Err::<User, PetstoreError>(PetstoreError::AccessConflict) <==> !old(
                self,
            ).database().can_write(),
            old(self).database().can_write() ==> if username_taken(
                old(self)@,
                updated_user.username@,
            ) {
                exists|k: u64|
                    old(self)@.contains_key(k) && old(self)@[k].username@ == updated_user.username@
                        && r == Ok::<User, PetstoreError>(User { id: Some(k), ..updated_user })
                        && final(self)@ == old(self)@.insert(k, User { id: Some(k), ..updated_user })
            } else {
                r == Err::<User, PetstoreError>(PetstoreError::MissingUser)
            },
    {
        self.users.write()?;
        match self.key_of(&updated_user.username) {
            Some(k) => {
                let mut updated_user = updated_user;
                updated_user.id = Some(k);
                let ghost old_users = self.users@;
                self.users.replace(k, updated_user.copy());
                proof {
                    assert forall|a: u64, b: u64|
                        self.users@.contains_key(a) && self.users@.contains_key(b) && (
                        #[trigger] self.users@[a]).username@ == (#[trigger] self.users@[b]).username@
                        implies a == b by {
                        if a != k && b != k {
                            assert(old_users[a] == self.users@[a]);
                            assert(old_users[b] == self.users@[b]);
                        } else if a == k && b != k {
                            assert(old_users[b] == self.users@[b]);
                            assert(old_users[k].username@ == self.users@[a].username@);
                        } else if b == k && a != k {
                            assert(old_users[a] == self.users@[a]);
                            assert(old_users[k].username@ == self.users@[b].username@);
                        }
                    }
                }
                Ok(updated_user)
            },
            None => Err(PetstoreError::MissingUser),
        }
    }
}

} // verus!
