use vstd::prelude::*;

verus! {

/// The mathematical model of a user record.
pub ghost struct UserView {
    pub id: u32,
    pub name: Seq<char>,
    pub email: Seq<char>,
    pub age: u32,
    pub created_at: Seq<char>,
}

/// One person record. `id` is the primary key and `created_at` an RFC 3339
/// timestamp; neither changes after creation.
#[derive(Clone, Debug)]
pub struct User {
    pub id: u32,
    pub name: String,
    pub email: String,
    pub age: u32,
    pub created_at: String,
}

impl View for User {
    type V = UserView;

    open spec fn view(&self) -> UserView {
        UserView {
            id: self.id,
            name: self.name@,
            email: self.email@,
            age: self.age,
            created_at: self.created_at@,
        }
    }
}

impl User {
    /// A copy of this record, field for field.
    pub fn snapshot(&self) -> (r: User)
        ensures
            r@ == self@,
    {
        User {
            id: self.id,
            name: self.name.clone(),
            email: self.email.clone(),
            age: self.age,
            created_at: self.created_at.clone(),
        }
    }
}

/// The fields that a client supplies to create a record.
#[derive(Clone, Debug)]
pub struct CreateUserRequest {
    pub name: String,
    pub email: String,
    pub age: u32,
}

impl CreateUserRequest {
    /// Both required fields are non-empty.
    pub open spec fn is_valid(&self) -> bool {
        self.name@.len() > 0 && self.email@.len() > 0
    }
}

/// A partial update: each field that is `Some` replaces the stored one, each
/// `None` leaves it as it is.
#[derive(Clone, Debug)]
pub struct UpdateUserRequest {
    pub name: Option<String>,
    pub email: Option<String>,
    pub age: Option<u32>,
}

/// The record `u` after the fields present in `req` have been written over it.
pub open spec fn apply_update(u: UserView, req: UpdateUserRequest) -> UserView {
    UserView {
        id: u.id,
        name: match req.name {
            Some(n) => n@,
            None => u.name,
        },
        email: match req.email {
            Some(e) => e@,
            None => u.email,
        },
        age: match req.age {
            Some(a) => a,
            None => u.age,
        },
        created_at: u.created_at,
    }
}

impl UpdateUserRequest {
    /// Writes the present fields of this request over `user`.
    pub fn apply_to(&self, user: &mut User)
        ensures
            final(user)@ == apply_update(old(user)@, *self),
    {
        match &self.name {
            Some(n) => {
                user.name = n.clone();
            },
            None => {},
        }
        match &self.email {
            Some(e) => {
                user.email = e.clone();
            },
            None => {},
        }
        match self.age {
            Some(a) => {
                user.age = a;
            },
            None => {},
        }
    }
}

} // verus!
