use vstd::prelude::*;

verus! {

/// The adoption status of a pet.
#[derive(Clone, Copy, Debug, PartialEq, Eq, Structural)]
pub enum Status {
    Available,
    Pending,
    Adopted,
}

/// The status of an order.
#[derive(Clone, Copy, Debug, PartialEq, Eq, Structural)]
pub enum OrderStatus {
    Placed,
    Approved,
    Delivered,
}

/// The name of a pet status as it appears in requests and responses.
pub open spec fn status_name(s: Status) -> Seq<char> {
    match s {
        Status::Available => "available"@,
        Status::Pending => "pending"@,
        Status::Adopted => "adopted"@,
    }
}

/// The pet status named `s`, if `s` names one.
pub open spec fn status_named(s: Seq<char>) -> Option<Status> {
    if s == "available"@ {
        Some(Status::Available)
    } else if s == "pending"@ {
        Some(Status::Pending)
    } else if s == "adopted"@ {
        Some(Status::Adopted)
    } else {
        None
    }
}

/// The name of an order status as it appears in requests and responses.
pub open spec fn order_status_name(s: OrderStatus) -> Seq<char> {
    match s {
        OrderStatus::Placed => "placed"@,
        OrderStatus::Approved => "approved"@,
        OrderStatus::Delivered => "delivered"@,
    }
}

/// The order status named `s`, if `s` names one.
pub open spec fn order_status_named(s: Seq<char>) -> Option<OrderStatus> {
    if s == "placed"@ {
        Some(OrderStatus::Placed)
    } else if s == "approved"@ {
        Some(OrderStatus::Approved)
    } else if s == "delivered"@ {
        Some(OrderStatus::Delivered)
    } else {
        None
    }
}

/// Whether two strings hold the same characters.
pub fn same_text(a: &str, b: &str) -> (r: bool)
    ensures
        r == (a@ == b@),
{
    let x = a.to_owned();
    let y = b.to_owned();
    x == y
}

impl Status {
    /// The name of this status.
    pub fn as_str(&self) -> (r: &'static str)
        ensures
            r@ == status_name(*self),
    {
        match self {
            Status::Available => "available",
            Status::Pending => "pending",
            Status::Adopted => "adopted",
        }
    }

    /// The status named `s`, if any.
    pub fn parse(s: &str) -> (r: Option<Status>)
        ensures
            r == status_named(s@),
    {
        if same_text(s, "available") {
            Some(Status::Available)
        } else if same_text(s, "pending") {
            Some(Status::Pending)
        } else if same_text(s, "adopted") {
            Some(Status::Adopted)
        } else {
            None
        }
    }
}

impl OrderStatus {
    /// The name of this status.
    pub fn as_str(&self) -> (r: &'static str)
        ensures
            r@ == order_status_name(*self),
    {
        match self {
            OrderStatus::Placed => "placed",
            OrderStatus::Approved => "approved",
            OrderStatus::Delivered => "delivered",
        }
    }

    /// The status named `s`, if any.
    pub fn parse(s: &str) -> (r: Option<OrderStatus>)
        ensures
            r == order_status_named(s@),
    {
        if same_text(s, "placed") {
            Some(OrderStatus::Placed)
        } else if same_text(s, "approved") {
            Some(OrderStatus::Approved)
        } else if same_text(s, "delivered") {
            Some(OrderStatus::Delivered)
        } else {
            None
        }
    }
}

/// Parsing the name of a status gives the status back.
pub proof fn law_status_names_round_trip(s: Status, o: OrderStatus)
    ensures
        status_named(status_name(s)) == Some(s),
        order_status_named(order_status_name(o)) == Some(o),
{
    reveal_strlit("available");
    reveal_strlit("pending");
    reveal_strlit("adopted");
    reveal_strlit("placed");
    reveal_strlit("approved");
    reveal_strlit("delivered");
    assert("pending"@.len() != "available"@.len());
    assert("adopted"@.len() != "available"@.len());
    assert("adopted"@[0] != "pending"@[0]);
    assert("approved"@.len() != "placed"@.len());
    assert("delivered"@.len() != "placed"@.len());
    assert("delivered"@[0] != "approved"@[0]);
}

/// A category a pet belongs to.
#[derive(Clone, Debug, PartialEq)]
pub struct Category {
    pub id: Option<u64>,
    pub name: String,
}

/// A tag attached to a pet.
#[derive(Clone, Debug, PartialEq)]
pub struct Tag {
    pub id: Option<u64>,
    pub name: String,
}

/// A pet; `name` and `photo_urls` are mandatory.
#[derive(Clone, Debug, PartialEq)]
pub struct Pet {
    pub id: Option<u64>,
    pub name: String,
    pub photo_urls: Vec<String>,
    pub category: Option<Category>,
    pub tags: Option<Vec<Tag>>,
    pub status: Option<Status>,
}

/// The mathematical value of a `Pet`: its lists seen as sequences.
pub struct PetView {
    pub id: Option<u64>,
    pub name: String,
    pub photo_urls: Seq<String>,
    pub category: Option<Category>,
    pub tags: Option<Seq<Tag>>,
    pub status: Option<Status>,
}

impl View for Pet {
    type V = PetView;

    open spec fn view(&self) -> PetView {
        PetView {
            id: self.id,
            name: self.name,
            photo_urls: self.photo_urls@,
            category: self.category,
            tags: match self.tags {
                Some(t) => Some(t@),
                None => None,
            },
            status: self.status,
        }
    }
}

/// `v` with its identifier set to `id`, the rest unchanged.
pub open spec fn pet_with_id(v: PetView, id: Option<u64>) -> PetView {
    PetView { id, ..v }
}

/// An order placed in the store.
#[derive(Clone, Debug, PartialEq)]
pub struct Order {
    pub id: Option<u64>,
    pub pet_id: Option<u64>,
    pub quantity: Option<u64>,
    pub ship_date: Option<String>,
    pub status: Option<OrderStatus>,
    pub complete: Option<bool>,
}

/// A user of the store; `username` and `password` are mandatory.
#[derive(Clone, Debug, PartialEq)]
pub struct User {
    pub id: Option<u64>,
    pub username: String,
    pub first_name: Option<String>,
    pub last_name: Option<String>,
    pub email: Option<String>,
    pub password: String,
    pub phone: Option<String>,
}

/// A user holds no collection, so it is its own mathematical value.
impl View for User {
    type V = User;

    open spec fn view(&self) -> User {
        *self
    }
}

/// Numbers of pets per status.
#[derive(Clone, Copy, Debug, PartialEq, Eq, Structural)]
pub struct Inventory {
    pub available: u32,
    pub pending: u32,
    pub adopted: u32,
}

/// An exact copy of an optional string.
pub fn copy_opt_string(s: &Option<String>) -> (r: Option<String>)
    ensures
        r == *s,
{
    match s {
        Some(x) => Some(x.clone()),
        None => None,
    }
}

/// An exact copy of a list of strings.
pub fn copy_strings(v: &Vec<String>) -> (r: Vec<String>)
    ensures
        r@ == v@,
{
    let mut r: Vec<String> = Vec::new();
    let mut i: usize = 0;
    while i < v.len()
        invariant
            i <= v.len(),
            r@ == v@.subrange(0, i as int),
        decreases v.len() - i,
    {
        r.push(v[i].clone());
        i = i + 1;
        assert(r@ =~= v@.subrange(0, i as int));
    }
    assert(v@.subrange(0, i as int) =~= v@);
    r
}

impl Category {
    /// An exact copy of this category.
    pub fn copy(&self) -> (r: Category)
        ensures
            r == *self,
    {
        Category { id: self.id, name: self.name.clone() }
    }
}

impl Tag {
    /// An exact copy of this tag.
    pub fn copy(&self) -> (r: Tag)
        ensures
            r == *self,
    {
        Tag { id: self.id, name: self.name.clone() }
    }
}

/// An exact copy of a list of tags.
pub fn copy_tags(v: &Vec<Tag>) -> (r: Vec<Tag>)
    ensures
        r@ == v@,
{
    let mut r: Vec<Tag> = Vec::new();
    let mut i: usize = 0;
    while i < v.len()
        invariant
            i <= v.len(),
            r@ == v@.subrange(0, i as int),
        decreases v.len() - i,
    {
        r.push(v[i].copy());
        i = i + 1;
        assert(r@ =~= v@.subrange(0, i as int));
    }
    assert(v@.subrange(0, i as int) =~= v@);
    r
}

impl Pet {
    /// A copy of this pet with the same value.
    pub fn copy(&self) -> (r: Pet)
        ensures
            r@ == self@,
    {
        let category = match &self.category {
            Some(c) => Some(c.copy()),
            None => None,
        };
        let tags = match &self.tags {
            Some(t) => Some(copy_tags(t)),
            None => None,
        };
        Pet {
            id: self.id,
            name: self.name.clone(),
            photo_urls: copy_strings(&self.photo_urls),
            category,
            tags,
            status: self.status,
        }
    }
}

impl Order {
    /// An exact copy of this order.
    pub fn copy(&self) -> (r: Order)
        ensures
            r == *self,
    {
        Order {
            id: self.id,
            pet_id: self.pet_id,
            quantity: self.quantity,
            ship_date: copy_opt_string(&self.ship_date),
            status: self.status,
            complete: self.complete,
        }
    }
}

impl User {
    /// An exact copy of this user.
    pub fn copy(&self) -> (r: User)
        ensures
            r == *self,
    {
        User {
            id: self.id,
            username: self.username.clone(),
            first_name: copy_opt_string(&self.first_name),
            last_name: copy_opt_string(&self.last_name),
            email: copy_opt_string(&self.email),
            password: self.password.clone(),
            phone: copy_opt_string(&self.phone),
        }
    }
}

} // verus!
