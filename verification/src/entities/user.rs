//! User accounts and their profile projection.

use vstd::prelude::*;
use vstd::string::StringExecFns;
use crate::core_types::{Id, Timestamp, fresh_id, now_ts};
use crate::value_objects::Email;

verus! {

/// The role a user holds in the product.
#[derive(Debug, Clone, Copy, PartialEq, Eq, Structural)]
pub enum UserRole {
    Admin,
    User,
    Guest,
}

/// A registered account.
#[derive(Debug, Clone)]
pub struct User {
    pub id: Id,
    pub email: Email,
    pub username: String,
    pub first_name: String,
    pub last_name: String,
    pub password_hash: String,
    pub is_active: bool,
    pub is_verified: bool,
    pub role: UserRole,
    pub created_at: Timestamp,
    pub updated_at: Timestamp,
    pub last_login_at: Option<Timestamp>,
}

impl User {
    /// A fresh account: active, unverified, an ordinary user. The
    /// identifier is random and the timestamps come from the clock.
    pub fn new(
        email: Email,
        username: String,
        first_name: String,
        last_name: String,
        password_hash: String,
    ) -> (r: User)
        ensures
            r.email == email,
            r.username == username,
            r.first_name == first_name,
            r.last_name == last_name,
            r.password_hash == password_hash,
            r.is_active,
            !r.is_verified,
            r.role == UserRole::User,
            r.last_login_at is None,
    {
        let now = now_ts();
        User {
            id: fresh_id(),
            email,
            username,
            first_name,
            last_name,
            password_hash,
            is_active: true,
            is_verified: false,
            role: UserRole::User,
            created_at: now,
            updated_at: now,
            last_login_at: None,
        }
    }

    /// The display name: first and last name joined by one space.
    pub fn full_name(&self) -> (r: String)
        ensures
            r@ == self.first_name@ + " "@ + self.last_name@,
    {
        let mut s = self.first_name.clone();
        s.append(" ");
        s.append(self.last_name.as_str());
        proof {
            assert(s@ =~= self.first_name@ + " "@ + self.last_name@);
        }
        s
    }

    /// Records a login at the current instant.
    pub fn update_last_login(&mut self)
        ensures
            final (self).last_login_at is Some,
            final (self).email == old(self).email,
            final (self).is_active == old(self).is_active,
            final (self).is_verified == old(self).is_verified,
            final (self).role == old(self).role,
    {
        self.last_login_at = Some(now_ts());
        self.updated_at = now_ts();
    }

    /// Marks the account as verified.
    pub fn verify(&mut self)
        ensures
            final (self).is_verified,
            final (self).is_active == old(self).is_active,
            final (self).email == old(self).email,
            final (self).role == old(self).role,
    {
        self.is_verified = true;
        self.updated_at = now_ts();
    }

    /// Disables the account.
    pub fn deactivate(&mut self)
        ensures
            !final (self).is_active,
            final (self).is_verified == old(self).is_verified,
            final (self).email == old(self).email,
            final (self).role == old(self).role,
    {
        self.is_active = false;
        self.updated_at = now_ts();
    }

    /// Re-enables the account.
    pub fn activate(&mut self)
        ensures
            final (self).is_active,
            final (self).is_verified == old(self).is_verified,
            final (self).email == old(self).email,
            final (self).role == old(self).role,
    {
        self.is_active = true;
        self.updated_at = now_ts();
    }

    /// The account's public projection; the e-mail is spelled out.
    pub fn to_profile(&self) -> (r: UserProfile)
        ensures
            r.id == self.id,
            r.email@ == self.email@,
            r.username == self.username,
            r.first_name == self.first_name,
            r.last_name == self.last_name,
            r.is_active == self.is_active,
            r.is_verified == self.is_verified,
            r.role == self.role,
            r.created_at == self.created_at,
            r.last_login_at == self.last_login_at,
    {
        UserProfile {
            id: self.id,
            email: String::from_str(self.email.as_str()),
            username: self.username.clone(),
            first_name: self.first_name.clone(),
            last_name: self.last_name.clone(),
            is_active: self.is_active,
            is_verified: self.is_verified,
            role: self.role,
            created_at: self.created_at,
            last_login_at: self.last_login_at,
        }
    }
}

/// A request to create an account.
#[derive(Debug, Clone)]
pub struct CreateUserRequest {
    pub email: String,
    pub username: String,
    pub first_name: String,
    pub last_name: String,
    pub password: String,
}

/// A request to change an account's names.
#[derive(Debug, Clone)]
pub struct UpdateUserRequest {
    pub username: Option<String>,
    pub first_name: Option<String>,
    pub last_name: Option<String>,
}

/// The public projection of an account.
#[derive(Debug, Clone)]
pub struct UserProfile {
    pub id: Id,
    pub email: String,
    pub username: String,
    pub first_name: String,
    pub last_name: String,
    pub is_active: bool,
    pub is_verified: bool,
    pub role: UserRole,
    pub created_at: Timestamp,
    pub last_login_at: Option<Timestamp>,
}

} // verus!
