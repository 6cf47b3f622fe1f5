//! The in-process store the core is verified against: identities and posts
//! held in vectors, with the uniqueness rules (one id, one email per user;
//! one id per post) that the surrounding persistence layer guarantees stated
//! here as an invariant and preserved by every operation.

use vstd::prelude::*;

use crate::errors::ErrorKind;
use crate::posts::Post;

verus! {

/// An authenticated user's identity record. The password field holds the
/// credential digest, never the password itself.
#[derive(Debug)]
pub struct User {
    pub id: u128,
    pub name: String,
    pub email: String,
    pub password: String,
    pub role: String,
    pub photo: String,
    pub verified: bool,
    pub created_at: Option<u64>,
    pub updated_at: Option<u64>,
}

impl User {
    /// An owned copy, equal to the original.
    pub fn duplicate(&self) -> (r: User)
        ensures
            r == *self,
    {
        User {
            id: self.id,
            name: self.name.clone(),
            email: self.email.clone(),
            password: self.password.clone(),
            role: self.role.clone(),
            photo: self.photo.clone(),
            verified: self.verified,
            created_at: self.created_at,
            updated_at: self.updated_at,
        }
    }
}

/// The outward shape of an identity: every attribute but the credential
/// digest, which is never serialized outward.
#[derive(Debug)]
pub struct FilteredUser {
    pub id: u128,
    pub name: String,
    pub email: String,
    pub role: String,
    pub photo: String,
    pub verified: bool,
    pub created_at: Option<u64>,
    pub updated_at: Option<u64>,
}

impl User {
    /// The response form of this identity: all fields carried over, the
    /// credential digest left behind.
    pub fn filtered(&self) -> (r: FilteredUser)
        ensures
            r.id == self.id,
            r.name == self.name,
            r.email == self.email,
            r.role == self.role,
            r.photo == self.photo,
            r.verified == self.verified,
            r.created_at == self.created_at,
            r.updated_at == self.updated_at,
    {
        FilteredUser {
            id: self.id,
            name: self.name.clone(),
            email: self.email.clone(),
            role: self.role.clone(),
            photo: self.photo.clone(),
            verified: self.verified,
            created_at: self.created_at,
            updated_at: self.updated_at,
        }
    }
}

/// The durable state the core reads and writes: identities and posts.
pub struct Store {
    pub users: Vec<User>,
    pub posts: Vec<Post>,
}

impl Store {
    pub open spec fn user_seq(&self) -> Seq<User> {
        self.users@
    }

    pub open spec fn post_seq(&self) -> Seq<Post> {
        self.posts@
    }

    /// The store's invariant: user ids and emails are unique, post ids are
    /// unique.
    pub open spec fn wf(&self) -> bool {
        &&& forall|i: int, j: int|
            0 <= i < j < self.user_seq().len() ==> #[trigger] self.user_seq()[i].id
                != #[trigger] self.user_seq()[j].id
        &&& forall|i: int, j: int|
            0 <= i < j < self.user_seq().len() ==> #[trigger] self.user_seq()[i].email@
                != #[trigger] self.user_seq()[j].email@
        &&& forall|i: int, j: int|
            0 <= i < j < self.post_seq().len() ==> #[trigger] self.post_seq()[i].id
                != #[trigger] self.post_seq()[j].id
    }

    /// Whether some stored user has this id.
    pub open spec fn has_user_id(&self, id: u128) -> bool {
        exists|i: int| 0 <= i < self.user_seq().len() && #[trigger] self.user_seq()[i].id == id
    }

    /// Whether some stored user has this email.
    pub open spec fn has_user_email(&self, email: Seq<char>) -> bool {
        exists|i: int|
            0 <= i < self.user_seq().len() && #[trigger] self.user_seq()[i].email@ == email
    }

    pub fn new() -> (r: Store)
        ensures
            r.wf(),
            r.user_seq() == Seq::<User>::empty(),
            r.post_seq() == Seq::<Post>::empty(),
    {
        Store { users: Vec::new(), posts: Vec::new() }
    }

    /// Looks an identity up by id; `None` exactly when no stored user has it.
    pub fn get_by_id(&self, id: u128) -> (r: Option<&User>)
        ensures
            match r {
                Some(u) => exists|i: int|
                    0 <= i < self.user_seq().len() && #[trigger] self.user_seq()[i] == *u
                        && u.id == id,
                None => !self.has_user_id(id),
            },
    {
        let mut i: usize = 0;
        while i < self.users.len()
            invariant
                i <= self.user_seq().len(),
                forall|j: int| 0 <= j < i ==> #[trigger] self.user_seq()[j].id != id,
            decreases self.user_seq().len() - i,
        {
            if self.users[i].id == id {
                return Some(&self.users[i]);
            }
            i = i + 1;
        }
        None
    }

    /// Looks an identity up by email; `None` exactly when no stored user has
    /// it.
    pub fn get_by_email(&self, email: &str) -> (r: Option<&User>)
        ensures
            match r {
                Some(u) => exists|i: int|
                    0 <= i < self.user_seq().len() && #[trigger] self.user_seq()[i] == *u
                        && u.email@ == email@,
                None => !self.has_user_email(email@),
            },
    {
        let target = email.to_owned();
        let mut i: usize = 0;
        while i < self.users.len()
            invariant
                i <= self.user_seq().len(),
                target@ == email@,
                forall|j: int| 0 <= j < i ==> #[trigger] self.user_seq()[j].email@ != email@,
            decreases self.user_seq().len() - i,
        {
            if self.users[i].email.eq(&target) {
                return Some(&self.users[i]);
            }
            i = i + 1;
        }
        None
    }

    /// Adds a new identity; the store refuses a duplicate id or email.
    pub fn insert_user(&mut self, u: User) -> (r: Result<(), ErrorKind>)
        requires
            old(self).wf(),
        ensures
            final(self).wf(),
            final(self).post_seq() == old(self).post_seq(),
            match r {
                Ok(()) => !old(self).has_user_id(u.id) && !old(self).has_user_email(u.email@)
                    && final(self).user_seq() == old(self).user_seq().push(u),
                Err(e) => e == ErrorKind::StoreFailure && (old(self).has_user_id(u.id) || old(self).has_user_email(u.email@)) && *final(self) == *old(self),
            },
    {
        let ghost orig = *self;
        let mut i: usize = 0;
        while i < self.users.len()
            invariant
                *self == orig,
                orig == *old(self),
                orig.wf(),
                i <= self.user_seq().len(),
                forall|j: int| 0 <= j < i ==> #[trigger] self.user_seq()[j].id != u.id,
                forall|j: int| 0 <= j < i ==> #[trigger] self.user_seq()[j].email@ != u.email@,
            decreases self.user_seq().len() - i,
        {
            if self.users[i].id == u.id {
                return Err(ErrorKind::StoreFailure);
            }
            if self.users[i].email.eq(&u.email) {
                return Err(ErrorKind::StoreFailure);
            }
            proof {
                assert(self.user_seq()[i as int].id != u.id);
                assert(self.user_seq()[i as int].email@ != u.email@);
            }
            i = i + 1;
        }
        self.users.push(u);
        proof {
            let s = self.user_seq();
            let n = orig.user_seq().len() as int;
            assert forall|a: int, b: int| 0 <= a < b < s.len() implies #[trigger] s[a].id
                != #[trigger] s[b].id && #[trigger] s[a].email@ != #[trigger] s[b].email@ by {
                if b < n {
                    assert(orig.user_seq()[a].id != orig.user_seq()[b].id);
                    assert(orig.user_seq()[a].email@ != orig.user_seq()[b].email@);
                } else {
                    assert(s[b] == u && s[a] == orig.user_seq()[a]);
                    assert(orig.user_seq()[a].id != u.id);
                    assert(orig.user_seq()[a].email@ != u.email@);
                }
            }
        }
        Ok(())
    }

    /// Replaces the credential digest of the identity with this id and stamps
    /// the update instant; `NotFound` exactly when no stored user has the id.
    pub fn update_password_hash(&mut self, id: u128, hash: String, now: u64) -> (r: Result<
        (),
        ErrorKind,
    >)
        requires
            old(self).wf(),
        ensures
            final(self).wf(),
            final(self).post_seq() == old(self).post_seq(),
            match r {
                Ok(()) => exists|i: int|
                    0 <= i < old(self).user_seq().len() && #[trigger] old(self).user_seq()[i].id
                        == id && final(self).user_seq() == old(self).user_seq().update(
                        i,
                        User {
                            password: hash,
                            updated_at: Some(now),
                            ..old(self).user_seq()[i]
                        },
                    ),
                Err(e) => e == ErrorKind::NotFound && !old(self).has_user_id(id) && *final(self)
                    == *old(self),
            },
    {
        let ghost orig = *self;
        let mut i: usize = 0;
        while i < self.users.len()
            invariant
                *self == orig,
                orig == *old(self),
                orig.wf(),
                i <= self.user_seq().len(),
                forall|j: int| 0 <= j < i ==> #[trigger] self.user_seq()[j].id != id,
            decreases self.user_seq().len() - i,
        {
            if self.users[i].id == id {
                let u = &self.users[i];
                let replaced = User {
                    id: u.id,
                    name: u.name.clone(),
                    email: u.email.clone(),
                    password: hash,
                    role: u.role.clone(),
                    photo: u.photo.clone(),
                    verified: u.verified,
                    created_at: u.created_at,
                    updated_at: Some(now),
                };
                self.users[i] = replaced;
                proof {
                    lemma_user_update_wf(orig.user_seq(), self.user_seq(), i as int);
                }
                return Ok(());
            }
            i = i + 1;
        }
        Err(ErrorKind::NotFound)
    }

    /// Marks the identity with this id as verified; `NotFound` exactly when
    /// no stored user has the id.
    pub fn set_verified(&mut self, id: u128, now: u64) -> (r: Result<(), ErrorKind>)
        requires
            old(self).wf(),
        ensures
            final(self).wf(),
            final(self).post_seq() == old(self).post_seq(),
            match r {
                Ok(()) => exists|i: int|
                    0 <= i < old(self).user_seq().len() && #[trigger] old(self).user_seq()[i].id
                        == id && final(self).user_seq() == old(self).user_seq().update(
                        i,
                        User {
                            verified: true,
                            updated_at: Some(now),
                            ..old(self).user_seq()[i]
                        },
                    ),
                Err(e) => e == ErrorKind::NotFound && !old(self).has_user_id(id) && *final(self)
                    == *old(self),
            },
    {
        let ghost orig = *self;
        let mut i: usize = 0;
        while i < self.users.len()
            invariant
                *self == orig,
                orig == *old(self),
                orig.wf(),
                i <= self.user_seq().len(),
                forall|j: int| 0 <= j < i ==> #[trigger] self.user_seq()[j].id != id,
            decreases self.user_seq().len() - i,
        {
            if self.users[i].id == id {
                let u = &self.users[i];
                let replaced = User {
                    id: u.id,
                    name: u.name.clone(),
                    email: u.email.clone(),
                    password: u.password.clone(),
                    role: u.role.clone(),
                    photo: u.photo.clone(),
                    verified: true,
                    created_at: u.created_at,
                    updated_at: Some(now),
                };
                self.users[i] = replaced;
                proof {
                    lemma_user_update_wf(orig.user_seq(), self.user_seq(), i as int);
                }
                return Ok(());
            }
            i = i + 1;
        }
        Err(ErrorKind::NotFound)
    }
}

/// Replacing one user with a record that keeps its id and email preserves
/// the uniqueness invariant.
proof fn lemma_user_update_wf(before: Seq<User>, after: Seq<User>, k: int)
    requires
        0 <= k < before.len(),
        after.len() == before.len(),
        forall|j: int| 0 <= j < before.len() && j != k ==> after[j] == before[j],
        after[k].id == before[k].id,
        after[k].email@ == before[k].email@,
        forall|i: int, j: int|
            0 <= i < j < before.len() ==> #[trigger] before[i].id != #[trigger] before[j].id,
        forall|i: int, j: int|
            0 <= i < j < before.len() ==> #[trigger] before[i].email@
                != #[trigger] before[j].email@,
    ensures
        forall|i: int, j: int|
            0 <= i < j < after.len() ==> #[trigger] after[i].id != #[trigger] after[j].id,
        forall|i: int, j: int|
            0 <= i < j < after.len() ==> #[trigger] after[i].email@ != #[trigger] after[j].email@,
{
    assert forall|i: int, j: int| 0 <= i < j < after.len() implies #[trigger] after[i].id
        != #[trigger] after[j].id && #[trigger] after[i].email@ != #[trigger] after[j].email@ by {
        assert(before[i].id != before[j].id);
        assert(before[i].email@ != before[j].email@);
    }
}

} // verus!
