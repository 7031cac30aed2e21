use vstd::prelude::*;

use crate::model::{Pet, PetView, Status, Tag, User};

verus! {

/// A test on records of type `T` whose outcome depends on the record's value alone.
pub trait Matcher<T: View> {
    /// Whether a record with value `x` passes the test.
    spec fn spec_matches(&self, x: T::V) -> bool;

    /// Runs the test on `x`.
    fn matches(&self, x: &T) -> (r: bool)
        ensures
            r == self.spec_matches(x@),
    ;
}

/// A pet with status `st` is selected by a request for `wanted`: its status
/// is unset, or is one of those wanted.
pub open spec fn status_selected(st: Option<Status>, wanted: Seq<Status>) -> bool {
    match st {
        None => true,
        Some(s) => wanted.contains(s),
    }
}

/// The pet's tag list exists and holds a tag named `name`.
pub open spec fn has_tag_named(tags: Option<Seq<Tag>>, name: Seq<char>) -> bool {
    match tags {
        None => false,
        Some(ts) => exists|i: int| 0 <= i < ts.len() && (#[trigger] ts[i]).name@ == name,
    }
}

/// For every requested name, the pet's tag list holds a tag with that name.
pub open spec fn has_all_tags(tags: Option<Seq<Tag>>, wanted: Seq<String>) -> bool {
    forall|j: int| 0 <= j < wanted.len() ==> has_tag_named(tags, (#[trigger] wanted[j])@)
}

/// Passes every pet.
pub struct AnyPet;

impl Matcher<Pet> for AnyPet {
    open spec fn spec_matches(&self, x: PetView) -> bool {
        true
    }

    fn matches(&self, x: &Pet) -> (r: bool) {
        true
    }
}

/// Passes pets whose status is unset or among `statuses`.
pub struct StatusFilter {
    pub statuses: Vec<Status>,
}

impl Matcher<Pet> for StatusFilter {
    open spec fn spec_matches(&self, x: PetView) -> bool {
        status_selected(x.status, self.statuses@)
    }

    fn matches(&self, x: &Pet) -> (r: bool) {
        match x.status {
            None => true,
            Some(s) => {
                let mut i: usize = 0;
                while i < self.statuses.len()
                    invariant
                        i <= self.statuses.len(),
                        x.status == Some(s),
                        forall|t: int| 0 <= t < i ==> self.statuses@[t] != s,
                    decreases self.statuses.len() - i,
                {
                    if self.statuses[i] == s {
                        assert(self.statuses@[i as int] == s);
                        assert(self.statuses@.contains(s));
                        return true;
                    }
                    i = i + 1;
                }
                false
            },
        }
    }
}

/// Whether `tags` holds a tag named `name`.
pub fn contains_tag_named(tags: &Vec<Tag>, name: &String) -> (r: bool)
    ensures
        r == has_tag_named(Some(tags@), name@),
{
    let mut i: usize = 0;
    while i < tags.len()
        invariant
            i <= tags.len(),
            forall|t: int| 0 <= t < i ==> tags@[t].name@ != name@,
        decreases tags.len() - i,
    {
        if tags[i].name == *name {
            assert(tags@[i as int].name@ == name@);
            return true;
        }
        i = i + 1;
    }
    false
}

/// Passes pets whose tag list holds a tag of each name in `tags`.
pub struct TagFilter {
    pub tags: Vec<String>,
}

impl Matcher<Pet> for TagFilter {
    open spec fn spec_matches(&self, x: PetView) -> bool {
        has_all_tags(x.tags, self.tags@)
    }

    fn matches(&self, x: &Pet) -> (r: bool) {
        let mut j: usize = 0;
        while j < self.tags.len()
            invariant
                j <= self.tags.len(),
                forall|t: int| 0 <= t < j ==> has_tag_named(x@.tags, (#[trigger] self.tags@[t])@),
            decreases self.tags.len() - j,
        {
            let found = match &x.tags {
                Some(ts) => contains_tag_named(ts, &self.tags[j]),
                None => false,
            };
            if !found {
                assert(!has_tag_named(x@.tags, self.tags@[j as int]@));
                return false;
            }
            j = j + 1;
        }
        true
    }
}

/// Passes the user named `name`.
pub struct UsernameIs {
    pub name: String,
}

impl Matcher<User> for UsernameIs {
    open spec fn spec_matches(&self, x: User) -> bool {
        x.username@ == self.name@
    }

    fn matches(&self, x: &User) -> (r: bool) {
        x.username == self.name
    }
}

} // verus!
