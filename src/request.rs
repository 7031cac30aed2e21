use vstd::prelude::*;

use crate::model::{same_text, status_named, Order, Pet, Status, User};
use vstd::string::StringExecFns;

verus! {

/// The pieces of `s` between commas, in order; no comma gives `s` itself,
/// and two adjacent commas give an empty piece.
pub open spec fn split_commas(s: Seq<char>) -> Seq<Seq<char>>
    decreases s.len(),
{
    if s.len() == 0 {
        seq![Seq::<char>::empty()]
    } else {
        let front = split_commas(s.drop_last());
        if s.last() == ',' {
            front.push(Seq::<char>::empty())
        } else {
            front.update(front.len() - 1, front.last().push(s.last()))
        }
    }
}

/// Relies on `str::split` with a `char` pattern: the substrings between the
/// occurrences of the pattern, from first to last.
#[verifier::external_body]
fn split_on_commas(s: &str) -> (r: Vec<String>)
    ensures
        r@.map_values(|p: String| p@) == split_commas(s@),
{
    s.split(',').map(|p| p.to_string()).collect()
}

/// The statuses named by `names`, if each of them names one.
pub open spec fn statuses_named(names: Seq<Seq<char>>) -> Option<Seq<Status>>
    decreases names.len(),
{
    if names.len() == 0 {
        Some(Seq::empty())
    } else {
        match (statuses_named(names.drop_last()), status_named(names.last())) {
            (Some(front), Some(s)) => Some(front.push(s)),
            _ => None,
        }
    }
}

/// Why an incoming request could not be decoded.
#[derive(Clone, Debug, PartialEq)]
pub enum EndpointError {
    /// The query or form held a key that the operation does not take.
    InvalidKey(String),
    /// A key that the operation needs was absent.
    MissingKey(String),
    /// A value did not name a status.
    InvalidStatus(String),
    /// The operation needs a query string and there was none.
    MissingQuery,
}

/// What went wrong in decoding a request, with its texts as character sequences.
pub enum EndpointFailure {
    InvalidKey(Seq<char>),
    MissingKey(Seq<char>),
    InvalidStatus(Seq<char>),
    MissingQuery,
}

impl View for EndpointError {
    type V = EndpointFailure;

    open spec fn view(&self) -> EndpointFailure {
        match self {
            EndpointError::InvalidKey(k) => EndpointFailure::InvalidKey(k@),
            EndpointError::MissingKey(k) => EndpointFailure::MissingKey(k@),
            EndpointError::InvalidStatus(v) => EndpointFailure::InvalidStatus(v@),
            EndpointError::MissingQuery => EndpointFailure::MissingQuery,
        }
    }
}

/// Decodes the key-value pairs of a search by status, given the list `found`
/// from the pairs before them: each pair must have the key `status` and a
/// comma-separated list of status names; the last list wins.
pub open spec fn decode_statuses(pairs: Seq<(String, String)>, found: Option<Seq<Status>>) -> Result<
    Seq<Status>,
    EndpointFailure,
>
    decreases pairs.len(),
{
    if pairs.len() == 0 {
        match found {
            Some(l) => Ok(l),
            None => Err(EndpointFailure::MissingKey("status"@)),
        }
    } else if pairs[0].0@ == "status"@ {
        match statuses_named(split_commas(pairs[0].1@)) {
            Some(l) => decode_statuses(pairs.drop_first(), Some(l)),
            None => Err(EndpointFailure::InvalidStatus(pairs[0].1@)),
        }
    } else {
        Err(EndpointFailure::InvalidKey(pairs[0].0@))
    }
}

/// Decodes the key-value pairs of a search by tags, given the names `found`
/// from the pairs before them: each pair must have the key `tags` and a
/// comma-separated list of names; the last list wins.
pub open spec fn decode_tags(pairs: Seq<(String, String)>, found: Option<Seq<Seq<char>>>) -> Result<
    Seq<Seq<char>>,
    EndpointFailure,
>
    decreases pairs.len(),
{
    if pairs.len() == 0 {
        match found {
            Some(l) => Ok(l),
            None => Err(EndpointFailure::MissingKey("tags"@)),
        }
    } else if pairs[0].0@ == "tags"@ {
        decode_tags(pairs.drop_first(), Some(split_commas(pairs[0].1@)))
    } else {
        Err(EndpointFailure::InvalidKey(pairs[0].0@))
    }
}

/// Decodes the key-value pairs of a partial pet update, given the name and
/// status from the pairs before them: keys may be `name` or `status`, the
/// last value of each wins.
pub open spec fn decode_update(
    pairs: Seq<(String, String)>,
    name: Option<Seq<char>>,
    status: Option<Status>,
) -> Result<(Option<Seq<char>>, Option<Status>), EndpointFailure>
    decreases pairs.len(),
{
    if pairs.len() == 0 {
        Ok((name, status))
    } else if pairs[0].0@ == "name"@ {
        decode_update(pairs.drop_first(), Some(pairs[0].1@), status)
    } else if pairs[0].0@ == "status"@ {
        match status_named(pairs[0].1@) {
            Some(s) => decode_update(pairs.drop_first(), name, Some(s)),
            None => Err(EndpointFailure::InvalidStatus(pairs[0].1@)),
        }
    } else {
        Err(EndpointFailure::InvalidKey(pairs[0].0@))
    }
}

/// The query of a search by status: the statuses wanted.
#[derive(Clone, Debug, PartialEq)]
pub struct FindPetsByStatusesParam {
    pub status: Vec<Status>,
}

/// The query of a search by tags: the tag names that must all be present.
#[derive(Clone, Debug, PartialEq)]
pub struct FindPetsByTagsParam {
    pub tags: Vec<String>,
}

impl FindPetsByStatusesParam {
    /// Decodes the key-value pairs of a query.
    pub fn from_pairs(pairs: &Vec<(String, String)>) -> (r: Result<Self, EndpointError>)
        ensures
            match r {
                Ok(p) => decode_statuses(pairs@, None) == Ok::<Seq<Status>, EndpointFailure>(
                    p.status@,
                ),
                Err(e) => decode_statuses(pairs@, None) == Err::<Seq<Status>, EndpointFailure>(
                    e@,
                ),
            },
    {
        let n = pairs.len();
        let mut status: Option<Vec<Status>> = None;
        let mut i: usize = 0;
        assert(pairs@.subrange(0, n as int) =~= pairs@);
        while i < n
            invariant
                n == pairs.len(),
                i <= n,
                decode_statuses(pairs@, None) == decode_statuses(
                    pairs@.subrange(i as int, n as int),
                    match status {
                        Some(l) => Some(l@),
                        None => None,
                    },
                ),
            decreases n - i,
        {
            proof {
                assert(pairs@.subrange(i as int, n as int).drop_first() =~= pairs@.subrange(
                    i + 1,
                    n as int,
                ));
                assert(pairs@.subrange(i as int, n as int)[0] == pairs@[i as int]);
            }
            let (key, value) = &pairs[i];
            if same_text(key.as_str(), "status") {
                match parse_status_list(value) {
                    Some(l) => status = Some(l),
                    None => {
                        return Err(EndpointError::InvalidStatus(value.clone()));
                    },
                }
            } else {
                return Err(EndpointError::InvalidKey(key.clone()));
            }
            i = i + 1;
        }
        match status {
            Some(status) => Ok(FindPetsByStatusesParam { status }),
            None => Err(EndpointError::MissingKey(String::from_str("status"))),
        }
    }
}

impl FindPetsByTagsParam {
    /// Decodes the key-value pairs of a query.
    pub fn from_pairs(pairs: &Vec<(String, String)>) -> (r: Result<Self, EndpointError>)
        ensures
            match r {
                Ok(p) => decode_tags(pairs@, None) == Ok::<Seq<Seq<char>>, EndpointFailure>(
                    p.tags@.map_values(|t: String| t@),
                ),
                Err(e) => decode_tags(pairs@, None) == Err::<Seq<Seq<char>>, EndpointFailure>(
                    e@,
                ),
            },
    {
        let n = pairs.len();
        let mut tags: Option<Vec<String>> = None;
        let mut i: usize = 0;
        assert(pairs@.subrange(0, n as int) =~= pairs@);
        while i < n
            invariant
                n == pairs.len(),
                i <= n,
                decode_tags(pairs@, None) == decode_tags(
                    pairs@.subrange(i as int, n as int),
                    match tags {
                        Some(l) => Some(l@.map_values(|t: String| t@)),
                        None => None,
                    },
                ),
            decreases n - i,
        {
            proof {
                assert(pairs@.subrange(i as int, n as int).drop_first() =~= pairs@.subrange(
                    i + 1,
                    n as int,
                ));
                assert(pairs@.subrange(i as int, n as int)[0] == pairs@[i as int]);
            }
            let (key, value) = &pairs[i];
            if same_text(key.as_str(), "tags") {
                tags = Some(split_on_commas(value.as_str()));
            } else {
                return Err(EndpointError::InvalidKey(key.clone()));
            }
            i = i + 1;
        }
        match tags {
            Some(tags) => Ok(FindPetsByTagsParam { tags }),
            None => Err(EndpointError::MissingKey(String::from_str("tags"))),
        }
    }
}

/// The form of a partial pet update: the new name and status, each optional.
#[derive(Clone, Debug, PartialEq)]
pub struct UpdatePetParam {
    pub name: Option<String>,
    pub status: Option<Status>,
}

impl UpdatePetParam {
    /// Decodes the key-value pairs of a form.
    pub fn from_pairs(pairs: &Vec<(String, String)>) -> (r: Result<Self, EndpointError>)
        ensures
            match r {
                Ok(p) => decode_update(pairs@, None, None) == Ok::<
                    (Option<Seq<char>>, Option<Status>),
                    EndpointFailure,
                >(
                    (
                        match p.name {
                            Some(n) => Some(n@),
                            None => None,
                        },
                        p.status,
                    ),
                ),
                Err(e) => decode_update(pairs@, None, None) == Err::<
                    (Option<Seq<char>>, Option<Status>),
                    EndpointFailure,
                >(e@),
            },
    {
        let n = pairs.len();
        let mut name: Option<String> = None;
        let mut status: Option<Status> = None;
        let mut i: usize = 0;
        assert(pairs@.subrange(0, n as int) =~= pairs@);
        while i < n
            invariant
                n == pairs.len(),
                i <= n,
                decode_update(pairs@, None, None) == decode_update(
                    pairs@.subrange(i as int, n as int),
                    match name {
                        Some(s) => Some(s@),
                        None => None,
                    },
                    status,
                ),
            decreases n - i,
        {
            proof {
                assert(pairs@.subrange(i as int, n as int).drop_first() =~= pairs@.subrange(
                    i + 1,
                    n as int,
                ));
                assert(pairs@.subrange(i as int, n as int)[0] == pairs@[i as int]);
            }
            let (key, value) = &pairs[i];
            if same_text(key.as_str(), "name") {
                name = Some(value.clone());
            } else if same_text(key.as_str(), "status") {
                match Status::parse(value.as_str()) {
                    Some(s) => status = Some(s),
                    None => {
                        return Err(EndpointError::InvalidStatus(value.clone()));
                    },
                }
            } else {
                return Err(EndpointError::InvalidKey(key.clone()));
            }
            i = i + 1;
        }
        Ok(UpdatePetParam { name, status })
    }
}

/// A decoded request to the petstore, one per operation.
#[derive(Clone, Debug, PartialEq)]
pub enum Request {
    GetPet(u64),
    AddPet(Pet),
    UpdatePet(Pet),
    DeletePet(u64),
    FindPetsByStatuses(FindPetsByStatusesParam),
    FindPetsByTags(FindPetsByTagsParam),
    UpdatePetViaForm(u64, UpdatePetParam),
    GetInventory,
    AddOrder(Order),
    DeleteOrder(u64),
    FindOrder(u64),
    AddUser(User),
    AddUsersViaList(Vec<User>),
    DeleteUser(String),
    GetUser(String),
    UpdateUser(User),
}

/// The statuses named by the comma-separated list `v`, or the first piece
/// that names none.
fn parse_status_list(v: &String) -> (r: Option<Vec<Status>>)
    ensures
        match r {
            Some(l) => statuses_named(split_commas(v@)) == Some(l@),
            None => statuses_named(split_commas(v@)) is None,
        },
{
    let pieces = split_on_commas(v.as_str());
    let ghost names = pieces@.map_values(|p: String| p@);
    let mut out: Vec<Status> = Vec::new();
    let mut i: usize = 0;
    while i < pieces.len()
        invariant
            names == pieces@.map_values(|p: String| p@),
            names == split_commas(v@),
            i <= pieces.len(),
            statuses_named(names.subrange(0, i as int)) == Some(out@),
        decreases pieces.len() - i,
    {
        proof {
            assert(names.subrange(0, i + 1).drop_last() =~= names.subrange(0, i as int));
        }
        match Status::parse(pieces[i].as_str()) {
            Some(s) => out.push(s),
            None => {
                proof {
                    assert(names.subrange(0, i + 1).last() == pieces@[i as int]@);
                    assert(statuses_named(names.subrange(0, i + 1)) is None);
                    lemma_statuses_named_prefix(names, i + 1);
                }
                return None;
            },
        }
        i = i + 1;
    }
    assert(names.subrange(0, i as int) =~= names);
    Some(out)
}

/// A list with a piece that names no status names no list, whatever follows.
proof fn lemma_statuses_named_prefix(names: Seq<Seq<char>>, n: int)
    requires
        0 <= n <= names.len(),
        statuses_named(names.subrange(0, n)) is None,
    ensures
        statuses_named(names) is None,
    decreases names.len() - n,
{
    if n < names.len() {
        assert(names.subrange(0, n + 1).drop_last() =~= names.subrange(0, n));
        lemma_statuses_named_prefix(names, n + 1);
    } else {
        assert(names.subrange(0, n) =~= names);
    }
}

} // verus!
