//! The drive hierarchy: workspaces, folders, items, and sharing.

use vstd::prelude::*;
use crate::core_types::{Id, Timestamp};
use crate::textform::str_eq;

verus! {

#[derive(Debug, Clone, PartialEq)]
pub struct Drive {
    pub id: Id,
    pub owner_id: Id,
    pub name: String,
    pub description: Option<String>,
    pub drive_type: DriveType,
    pub storage_quota: i64,
    pub storage_used: i64,
    pub settings: DriveSettings,
    pub is_shared: bool,
    pub created_at: Timestamp,
    pub updated_at: Timestamp,
}

#[derive(Debug, Clone, PartialEq)]
pub struct DriveSettings {
    pub default_sharing_permissions: SharingPermissions,
    pub allow_external_sharing: bool,
    pub require_approval_for_sharing: bool,
    pub auto_backup_enabled: bool,
    pub version_history_retention_days: u32,
    pub trash_retention_days: u32,
}

#[derive(Debug, Clone, PartialEq)]
pub struct SharingPermissions {
    pub can_view: bool,
    pub can_comment: bool,
    pub can_edit: bool,
    pub can_share: bool,
    pub can_download: bool,
}


#[derive(Debug, Clone, PartialEq)]
pub struct Folder {
    pub id: Id,
    pub drive_id: Id,
    pub parent_id: Option<Id>,
    pub name: String,
    pub description: Option<String>,
    pub color: Option<String>,
    pub path: String,
    pub permissions: FolderPermissions,
    pub is_starred: bool,
    pub is_trashed: bool,
    pub created_at: Timestamp,
    pub updated_at: Timestamp,
    pub trashed_at: Option<Timestamp>,
}

#[derive(Debug, Clone, PartialEq)]
pub struct FolderPermissions {
    pub owner_id: Id,
    pub shared_with: Vec<FolderShare>,
    pub public_access: PublicAccessLevel,
    pub inherit_permissions: bool,
}

#[derive(Debug, Clone, PartialEq)]
pub struct FolderShare {
    pub user_id: Id,
    pub permissions: SharingPermissions,
    pub granted_by: Id,
    pub granted_at: Timestamp,
    pub expires_at: Option<Timestamp>,
}


#[derive(Debug, Clone, PartialEq)]
pub struct DriveItem {
    pub id: Id,
    pub drive_id: Id,
    pub parent_id: Option<Id>,
    pub name: String,
    pub item_type: DriveItemType,
    pub mime_type: String,
    pub size: i64,
    pub path: String,
    pub permissions: ItemPermissions,
    pub metadata: ItemMetadata,
    pub is_starred: bool,
    pub is_trashed: bool,
    pub created_at: Timestamp,
    pub updated_at: Timestamp,
    pub trashed_at: Option<Timestamp>,
    pub last_accessed_at: Option<Timestamp>,
}

#[derive(Debug, Clone, PartialEq)]
pub struct ItemPermissions {
    pub owner_id: Id,
    pub shared_with: Vec<ItemShare>,
    pub public_access: PublicAccessLevel,
    pub sharing_link: Option<SharingLink>,
}

#[derive(Debug, Clone, PartialEq)]
pub struct ItemShare {
    pub user_id: Id,
    pub permissions: SharingPermissions,
    pub role: ShareRole,
    pub granted_by: Id,
    pub granted_at: Timestamp,
    pub expires_at: Option<Timestamp>,
    pub notification_sent: bool,
}

#[derive(Debug, Clone, PartialEq)]
pub struct SharingLink {
    pub token: String,
    pub access_level: PublicAccessLevel,
    pub password_protected: bool,
    pub password_hash: Option<String>,
    pub expires_at: Option<Timestamp>,
    pub access_count: i64,
    pub created_at: Timestamp,
}

#[derive(Debug, Clone, PartialEq)]
pub struct ItemMetadata {
    pub description: Option<String>,
    pub tags: Vec<String>,
    pub custom_properties: Vec<(String, String)>,
    pub thumbnail_url: Option<String>,
    pub preview_url: Option<String>,
    pub download_url: Option<String>,
    pub web_view_url: Option<String>,
    pub version: i64,
    pub checksum: Option<String>,
}

#[derive(Debug)]
pub struct CreateDriveRequest {
    pub name: String,
    pub description: Option<String>,
    pub drive_type: DriveType,
    pub storage_quota: Option<i64>,
}

#[derive(Debug)]
pub struct CreateFolderRequest {
    pub name: String,
    pub description: Option<String>,
    pub parent_id: Option<Id>,
    pub color: Option<String>,
}

#[derive(Debug)]
pub struct UpdateFolderRequest {
    pub name: Option<String>,
    pub description: Option<String>,
    pub color: Option<String>,
    pub parent_id: Option<Id>,
}

#[derive(Debug)]
pub struct ShareItemRequest {
    pub user_ids: Vec<Id>,
    pub role: ShareRole,
    pub message: Option<String>,
    pub expires_at: Option<Timestamp>,
    pub notify_users: bool,
}

#[derive(Debug)]
pub struct CreateSharingLinkRequest {
    pub access_level: PublicAccessLevel,
    pub password: Option<String>,
    pub expires_at: Option<Timestamp>,
}

#[derive(Debug)]
pub struct DriveItemResponse {
    pub id: Id,
    pub name: String,
    pub item_type: DriveItemType,
    pub mime_type: String,
    pub size: i64,
    pub path: String,
    pub is_starred: bool,
    pub is_trashed: bool,
    pub permissions: ItemPermissions,
    pub metadata: ItemMetadata,
    pub created_at: Timestamp,
    pub updated_at: Timestamp,
    pub owner: ItemOwner,
}

#[derive(Debug)]
pub struct ItemOwner {
    pub id: Id,
    pub username: String,
    pub full_name: String,
    pub email: String,
}

#[derive(Debug)]
pub struct FolderContents {
    pub folder: Folder,
    pub items: Vec<DriveItemResponse>,
    pub total_count: i64,
    pub has_more: bool,
}

#[derive(Debug, Clone, PartialEq)]
pub enum DriveType {
    Personal,
    Shared,
    Team,
    Organization,
}

#[derive(Debug, Clone, PartialEq)]
pub enum PublicAccessLevel {
    Private,
    ViewOnly,
    CommentOnly,
    EditAccess,
}

#[derive(Debug, Clone, PartialEq)]
pub enum DriveItemType {
    File,
    Folder,
    Document,
    Spreadsheet,
    Presentation,
    Form,
    Drawing,
    Shortcut,
}

#[derive(Debug, Clone, PartialEq)]
pub enum ShareRole {
    Viewer,
    Commenter,
    Editor,
    Owner,
}

#[derive(Debug, Clone, PartialEq)]
pub enum ActivityType {
    Create,
    Update,
    Delete,
    Move,
    Copy,
    Share,
    Unshare,
    Download,
    View,
    Comment,
    Restore,
    Trash,
    PermissionChange,
}

impl Drive {
    /// The bytes still free under the quota.
    pub fn available_storage(&self) -> (r: i64)
        requires
            i64::MIN <= self.storage_quota - self.storage_used <= i64::MAX,
        ensures
            r == self.storage_quota - self.storage_used,
    {
        self.storage_quota - self.storage_used
    }

    /// Whether a file of `file_size` bytes still fits under the quota.
    pub fn can_store_file(&self, file_size: i64) -> (r: bool)
        requires
            i64::MIN <= self.storage_quota - self.storage_used <= i64::MAX,
        ensures
            r == (self.storage_quota - self.storage_used >= file_size),
    {
        self.available_storage() >= file_size
    }
}

impl Folder {
    /// Whether this folder is the drive's root: the one without a parent.
    pub fn is_root(&self) -> (r: bool)
        ensures
            r == (self.parent_id is None),
    {
        match self.parent_id {
            None => true,
            Some(_) => false,
        }
    }
}

/// What the named permission means against a set of sharing permissions.
pub open spec fn perm_granted(p: SharingPermissions, permission: Seq<char>) -> bool {
    if permission == "view"@ {
        p.can_view
    } else if permission == "comment"@ {
        p.can_comment
    } else if permission == "edit"@ {
        p.can_edit
    } else if permission == "share"@ {
        p.can_share
    } else if permission == "download"@ {
        p.can_download
    } else {
        false
    }
}

/// What the named permission means at a public access level.
pub open spec fn public_granted(level: PublicAccessLevel, permission: Seq<char>) -> bool {
    match level {
        PublicAccessLevel::Private => false,
        PublicAccessLevel::ViewOnly => permission == "view"@,
        PublicAccessLevel::CommentOnly => permission == "view"@ || permission == "comment"@,
        PublicAccessLevel::EditAccess => permission == "view"@ || permission == "comment"@
            || permission == "edit"@,
    }
}

/// The first share listed for `user_id`, if any; with several shares for
/// one user the first one listed decides.
pub open spec fn first_share_for(shares: Seq<ItemShare>, user_id: Id) -> Option<ItemShare>
    decreases shares.len(),
{
    if shares.len() == 0 {
        None
    } else if shares[0].user_id == user_id {
        Some(shares[0])
    } else {
        first_share_for(shares.skip(1), user_id)
    }
}

/// Whether `user_id` holds `permission` on an item: owners hold
/// everything; the first share listed for the user decides for that user;
/// otherwise the public access level decides.
pub open spec fn spec_can_user_access(
    item: DriveItem,
    user_id: Id,
    permission: Seq<char>,
) -> bool {
    if item.permissions.owner_id == user_id {
        true
    } else {
        match first_share_for(item.permissions.shared_with@, user_id) {
            Some(share) => perm_granted(share.permissions, permission),
            None => public_granted(item.permissions.public_access, permission),
        }
    }
}

/// The first share for the user is found past any non-matching prefix.
proof fn lemma_first_share_skip(shares: Seq<ItemShare>, user_id: Id, i: int)
    requires
        0 <= i <= shares.len(),
        forall|j: int| 0 <= j < i ==> (#[trigger] shares[j]).user_id != user_id,
    ensures
        first_share_for(shares, user_id) == first_share_for(shares.skip(i), user_id),
    decreases i,
{
    if i > 0 {
        assert(shares.skip(1)[0] == shares[1] || shares.len() == 1) by {
            if shares.len() > 1 {
                assert(shares.skip(1)[0] == shares[1]);
            }
        }
        assert forall|j: int| 0 <= j < i - 1 implies (#[trigger] shares.skip(1)[j]).user_id
            != user_id by {
            assert(shares.skip(1)[j] == shares[j + 1]);
        }
        lemma_first_share_skip(shares.skip(1), user_id, i - 1);
        assert(shares.skip(1).skip(i - 1) =~= shares.skip(i));
    } else {
        assert(shares.skip(0) =~= shares);
    }
}

impl DriveItem {
    /// Decides the named permission for a user: the owner holds every
    /// permission, the first share listed for the user decides for that
    /// user, and otherwise the item's public access level decides.
    pub fn can_user_access(&self, user_id: Id, required_permission: &str) -> (r: bool)
        ensures
            r == spec_can_user_access(*self, user_id, required_permission@),
    {
        if self.permissions.owner_id == user_id {
            return true;
        }
        let ghost shares = self.permissions.shared_with@;
        let n = self.permissions.shared_with.len();
        let mut i: usize = 0;
        while i < n
            invariant
                shares == self.permissions.shared_with@,
                n == shares.len(),
                0 <= i <= n,
                self.permissions.owner_id != user_id,
                forall|j: int| 0 <= j < i ==> (#[trigger] shares[j]).user_id != user_id,
            decreases n - i,
        {
            if self.permissions.shared_with[i].user_id == user_id {
                proof {
                    lemma_first_share_skip(shares, user_id, i as int);
                    assert(shares.skip(i as int)[0] == shares[i as int]);
                    assert(first_share_for(shares, user_id) == Some(shares[i as int]));
                }
                let p = &self.permissions.shared_with[i].permissions;
                let r = if str_eq(required_permission, "view") {
                    p.can_view
                } else if str_eq(required_permission, "comment") {
                    p.can_comment
                } else if str_eq(required_permission, "edit") {
                    p.can_edit
                } else if str_eq(required_permission, "share") {
                    p.can_share
                } else if str_eq(required_permission, "download") {
                    p.can_download
                } else {
                    false
                };
                return r;
            }
            i = i + 1;
        }
        proof {
            lemma_first_share_skip(shares, user_id, n as int);
            assert(shares.skip(n as int) =~= Seq::<ItemShare>::empty());
            assert(first_share_for(shares, user_id) is None);
        }
        let level = &self.permissions.public_access;
        match level {
            PublicAccessLevel::Private => false,
            PublicAccessLevel::ViewOnly => str_eq(required_permission, "view"),
            PublicAccessLevel::CommentOnly => str_eq(required_permission, "view") || str_eq(
                required_permission,
                "comment",
            ),
            PublicAccessLevel::EditAccess => str_eq(required_permission, "view") || str_eq(
                required_permission,
                "comment",
            ) || str_eq(required_permission, "edit"),
        }
    }
}

} // verus!
