//! File shares: tokenised, optionally password-protected grants.

use vstd::prelude::*;
use crate::core_types::{Id, Timestamp, fresh_id, now_ts};

verus! {

/// A share grant for one file.
#[derive(Debug, Clone)]
pub struct Share {
    pub id: Id,
    pub file_id: Id,
    pub owner_id: Id,
    pub share_token: String,
    pub password: Option<String>,
    pub max_downloads: Option<i32>,
    pub download_count: i32,
    pub is_active: bool,
    pub created_at: Timestamp,
    pub updated_at: Timestamp,
    pub expires_at: Option<Timestamp>,
}

impl Share {
    /// Whether the share has expired by time `now`.
    pub open spec fn spec_expired_at(self, now: int) -> bool {
        match self.expires_at {
            Some(e) => now > e,
            None => false,
        }
    }

    /// Whether the download limit has been reached.
    pub open spec fn spec_limit_reached(self) -> bool {
        match self.max_downloads {
            Some(m) => self.download_count >= m,
            None => false,
        }
    }

    /// Whether the share can be accessed at time `now`.
    pub open spec fn spec_accessible_at(self, now: int) -> bool {
        self.is_active && !self.spec_expired_at(now) && !self.spec_limit_reached()
    }

    /// A fresh share: active, unprotected, with no downloads yet. The
    /// identifier is random and the timestamps come from the clock, so
    /// nothing is promised of them.
    pub fn new(file_id: Id, owner_id: Id, share_token: String) -> (r: Share)
        ensures
            r.file_id == file_id,
            r.owner_id == owner_id,
            r.share_token == share_token,
            r.password is None,
            r.max_downloads is None,
            r.download_count == 0,
            r.is_active,
            r.expires_at is None,
    {
        let now = now_ts();
        Share {
            id: fresh_id(),
            file_id,
            owner_id,
            share_token,
            password: None,
            max_downloads: None,
            download_count: 0,
            is_active: true,
            created_at: now,
            updated_at: now,
            expires_at: None,
        }
    }

    /// Whether the share has expired at the given instant.
    pub fn is_expired_at(&self, now: Timestamp) -> (r: bool)
        ensures
            r == self.spec_expired_at(now as int),
    {
        match self.expires_at {
            Some(e) => now > e,
            None => false,
        }
    }

    /// Whether the share has expired against the wall clock; the result
    /// holds for whatever instant the clock returned.
    pub fn is_expired(&self) -> (r: bool)
        ensures
            exists|now: int| r == self.spec_expired_at(now),
    {
        let now = now_ts();
        let r = self.is_expired_at(now);
        proof {
            assert(r == self.spec_expired_at(now as int));
        }
        r
    }

    /// Whether the configured download limit has been reached.
    pub fn is_download_limit_reached(&self) -> (r: bool)
        ensures
            r == self.spec_limit_reached(),
    {
        match self.max_downloads {
            Some(m) => self.download_count >= m,
            None => false,
        }
    }

    /// Whether the share admits an access at the given instant: active,
    /// not expired, and under its download limit.
    pub fn can_be_accessed_at(&self, now: Timestamp) -> (r: bool)
        ensures
            r == self.spec_accessible_at(now as int),
    {
        self.is_active && !self.is_expired_at(now) && !self.is_download_limit_reached()
    }

    /// Whether the share admits an access against the wall clock.
    pub fn can_be_accessed(&self) -> (r: bool)
        ensures
            exists|now: int| r == self.spec_accessible_at(now),
    {
        let now = now_ts();
        let r = self.can_be_accessed_at(now);
        proof {
            assert(r == self.spec_accessible_at(now as int));
        }
        r
    }

    /// Checks a supplied password: an unprotected share accepts anything;
    /// a protected one accepts exactly its stored password.
    pub fn verify_password(&self, password: &str) -> (r: bool)
        ensures
            r == match self.password {
                Some(stored) => stored@ == password@,
                None => true,
            },
    {
        match &self.password {
            Some(stored) => crate::textform::str_eq(stored.as_str(), password),
            None => true,
        }
    }

    /// Counts one more download; the update stamp moves with the clock.
    pub fn increment_download_count(&mut self)
        requires
            old(self).download_count < i32::MAX,
        ensures
            final (self).download_count == old(self).download_count + 1,
            final (self).id == old(self).id,
            final (self).file_id == old(self).file_id,
            final (self).owner_id == old(self).owner_id,
            final (self).password == old(self).password,
            final (self).max_downloads == old(self).max_downloads,
            final (self).is_active == old(self).is_active,
            final (self).expires_at == old(self).expires_at,
    {
        self.download_count = self.download_count + 1;
        self.updated_at = now_ts();
    }

    /// Replaces the password requirement.
    pub fn set_password(&mut self, password: Option<String>)
        ensures
            final (self).password == password,
            final (self).is_active == old(self).is_active,
            final (self).download_count == old(self).download_count,
    {
        self.password = password;
        self.updated_at = now_ts();
    }

    /// Disables the share.
    pub fn deactivate(&mut self)
        ensures
            !final (self).is_active,
            final (self).password == old(self).password,
            final (self).download_count == old(self).download_count,
    {
        self.is_active = false;
        self.updated_at = now_ts();
    }

    /// Re-enables the share.
    pub fn activate(&mut self)
        ensures
            final (self).is_active,
            final (self).password == old(self).password,
            final (self).download_count == old(self).download_count,
    {
        self.is_active = true;
        self.updated_at = now_ts();
    }
}

/// A request to create a share.
#[derive(Debug, Clone)]
pub struct CreateShareRequest {
    pub file_id: Id,
    pub password: Option<String>,
    pub max_downloads: Option<i32>,
    pub expires_at: Option<Timestamp>,
}

/// A request to change a share.
#[derive(Debug, Clone)]
pub struct UpdateShareRequest {
    pub password: Option<String>,
    pub max_downloads: Option<i32>,
    pub expires_at: Option<Timestamp>,
    pub is_active: Option<bool>,
}

/// What a share looks like to its owner.
#[derive(Debug, Clone)]
pub struct ShareInfo {
    pub id: Id,
    pub share_token: String,
    pub has_password: bool,
    pub max_downloads: Option<i32>,
    pub download_count: i32,
    pub is_active: bool,
    pub created_at: Timestamp,
    pub expires_at: Option<Timestamp>,
    pub file: ShareFileInfo,
}

/// The shared file, as presented alongside a share.
#[derive(Debug, Clone)]
pub struct ShareFileInfo {
    pub id: Id,
    pub filename: String,
    pub content_type: String,
    pub size: i64,
    pub human_readable_size: String,
}

/// A request to open a share, with its password if one is required.
#[derive(Debug, Clone)]
pub struct AccessShareRequest {
    pub password: Option<String>,
}

} // verus!
