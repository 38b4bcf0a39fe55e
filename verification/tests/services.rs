use kingshare::config::Config;
use kingshare::entities::drive::{
    Drive, DriveItem, DriveItemType, DriveType, DriveSettings, ItemMetadata, ItemPermissions,
    PublicAccessLevel, SharingPermissions,
};
use kingshare::entities::file::File;
use kingshare::entities::share::Share;
use kingshare::entities::user::{User, UserRole};
use kingshare::file_service::{sha256_hex, DefaultFileService};
use kingshare::storage::LocalStorageService;
use kingshare::textform::{i64_string, u64_string, uuid_string};
use kingshare::value_objects::Email;

#[test]
fn test_file_validation() {
    let file_service = DefaultFileService::new(1024 * 1024);

    // Test valid file
    let valid_data = b"Hello, World!";
    let result =
        file_service.validate_file("test.txt", "text/plain", valid_data.len() as u64, valid_data);
    assert!(result.is_valid);

    // Test oversized file
    let oversized_data = vec![0u8; 2 * 1024 * 1024];
    let result = file_service.validate_file(
        "large.txt",
        "text/plain",
        oversized_data.len() as u64,
        &oversized_data,
    );
    assert!(!result.is_valid);
    assert!(result.errors.iter().any(|e| e.contains("exceeds maximum")));

    // Test blocked extension
    let result =
        file_service.validate_file("malware.exe", "application/octet-stream", 100, b"fake exe");
    assert!(!result.is_valid);
    assert!(result.errors.iter().any(|e| e.contains("not allowed")));

    println!("File validation tests passed!");
}

#[test]
fn validation_reports_dangerous_names() {
    let service = DefaultFileService::new(1024);
    let result = service.validate_file("../etc/passwd", "text/plain", 10, b"0123456789");
    assert!(!result.is_valid);
    assert!(result
        .errors
        .iter()
        .any(|e| e == "Filename contains invalid character sequence: ../"));
}

#[test]
fn validation_warns_on_type_mismatch() {
    let service = DefaultFileService::new(1024);
    let png = [0x89u8, 0x50, 0x4e, 0x47, 0, 0, 0, 0];
    let result = service.validate_file("a.png", "text/plain", 8, &png);
    assert_eq!(result.warnings.len(), 1);
    assert!(result.warnings[0].contains("doesn't match detected type 'image/png'"));
}

#[test]
fn extension_handling_matches_path_semantics() {
    assert_eq!(
        DefaultFileService::get_file_extension("Archive.TAR.GZ").as_deref(),
        Some("gz")
    );
    assert_eq!(DefaultFileService::get_file_extension("noext"), None);
    assert_eq!(DefaultFileService::get_file_extension(".gitignore"), None);
    assert_eq!(DefaultFileService::get_file_extension("dir.v1/readme"), None);
    assert_eq!(LocalStorageService::extract_extension("photo.JPeG"), ".JPeG");
    assert_eq!(LocalStorageService::extract_extension("none"), "");
}

#[test]
fn magic_numbers_are_detected() {
    assert_eq!(
        DefaultFileService::detect_content_type_from_bytes(&[0xff, 0xd8, 0xff, 0xe0]).as_deref(),
        Some("image/jpeg")
    );
    assert_eq!(
        DefaultFileService::detect_content_type_from_bytes(&[0x50, 0x4b, 0x03, 0x04]).as_deref(),
        Some("application/zip")
    );
    assert_eq!(DefaultFileService::detect_content_type_from_bytes(b"abcd"), None);
    assert_eq!(DefaultFileService::detect_content_type_from_bytes(b"ab"), None);
}

#[test]
fn text_detection_counts_control_bytes() {
    assert!(DefaultFileService::is_text_file(b"plain text with\nnewlines\tand tabs"));
    let binary = [0u8; 100];
    assert!(!DefaultFileService::is_text_file(&binary));
    assert!(!DefaultFileService::is_text_file(b""));
}

#[test]
fn sha256_matches_known_digest() {
    assert_eq!(
        sha256_hex(b"abc"),
        "ba7816bf8f01cfea414140de5dae2223b00361a396177a9cb410ff61f20015ad"
    );
    assert_eq!(sha256_hex(b"abc").len(), 64);
}

#[test]
fn storage_paths_fan_out_by_checksum() {
    let storage = LocalStorageService::new("./uploads".to_string(), 1024);
    assert_eq!(
        storage.generate_file_path("deadbeef", ".txt"),
        "./uploads/de/ad/deadbeef.txt"
    );
}

#[test]
fn identifier_rendering_matches_uuid_form() {
    assert_eq!(
        uuid_string(0x550e8400e29b41d4a716446655440000),
        "550e8400-e29b-41d4-a716-446655440000"
    );
    assert_eq!(uuid_string(0), "00000000-0000-0000-0000-000000000000");
}

#[test]
fn decimal_rendering_is_exact() {
    assert_eq!(u64_string(0), "0");
    assert_eq!(u64_string(18446744073709551615), "18446744073709551615");
    assert_eq!(i64_string(-42), "-42");
    assert_eq!(i64_string(i64::MIN), "-9223372036854775808");
}

#[test]
fn human_readable_sizes() {
    let mut f = sample_file();
    f.size = 0;
    assert_eq!(f.human_readable_size(), "0.00 B");
    f.size = 1536;
    assert_eq!(f.human_readable_size(), "1.50 KB");
    f.size = 1048576;
    assert_eq!(f.human_readable_size(), "1.00 MB");
}

fn sample_file() -> File {
    File {
        id: 1,
        owner_id: 2,
        filename: "a".to_string(),
        original_filename: "a".to_string(),
        content_type: "text/plain".to_string(),
        size: 0,
        storage_path: "p".to_string(),
        checksum: "c".to_string(),
        is_public: false,
        download_count: 0,
        created_at: 0,
        updated_at: 0,
        expires_at: None,
    }
}

#[test]
fn share_access_rules() {
    let mut share = Share::new(1, 2, "tok".to_string());
    assert!(share.can_be_accessed_at(1000));
    assert!(share.verify_password("anything"));

    share.set_password(Some("secret".to_string()));
    assert!(share.verify_password("secret"));
    assert!(!share.verify_password("wrong"));

    share.max_downloads = Some(1);
    assert!(!share.is_download_limit_reached());
    share.increment_download_count();
    assert!(share.is_download_limit_reached());
    assert!(!share.can_be_accessed_at(1000));

    share.max_downloads = None;
    share.expires_at = Some(500);
    assert!(!share.can_be_accessed_at(1000));
    share.expires_at = None;
    share.deactivate();
    assert!(!share.can_be_accessed_at(1000));
}

#[test]
fn user_names_and_lifecycle() {
    let email = Email::new("ann@example.com".to_string()).unwrap();
    let mut user = User::new(
        email,
        "ann".to_string(),
        "Ann".to_string(),
        "Archer".to_string(),
        "hash".to_string(),
    );
    assert_eq!(user.full_name(), "Ann Archer");
    assert_eq!(user.role, UserRole::User);
    assert!(user.is_active && !user.is_verified);
    user.verify();
    user.deactivate();
    assert!(user.is_verified && !user.is_active);
    let profile = user.to_profile();
    assert_eq!(profile.email, "ann@example.com");
}

#[test]
fn drive_quota_and_access() {
    let drive = Drive {
        id: 1,
        owner_id: 2,
        name: "d".to_string(),
        description: None,
        drive_type: DriveType::Personal,
        storage_quota: 1000,
        storage_used: 400,
        settings: default_settings(),
        is_shared: false,
        created_at: 0,
        updated_at: 0,
    };
    assert_eq!(drive.available_storage(), 600);
    assert!(drive.can_store_file(600));
    assert!(!drive.can_store_file(601));

    let item = DriveItem {
        id: 1,
        drive_id: 1,
        parent_id: None,
        name: "doc".to_string(),
        item_type: DriveItemType::Document,
        mime_type: "text/plain".to_string(),
        size: 1,
        path: "/doc".to_string(),
        permissions: ItemPermissions {
            owner_id: 2,
            shared_with: Vec::new(),
            public_access: PublicAccessLevel::ViewOnly,
            sharing_link: None,
        },
        metadata: empty_metadata(),
        is_starred: false,
        is_trashed: false,
        created_at: 0,
        updated_at: 0,
        trashed_at: None,
        last_accessed_at: None,
    };
    assert!(item.can_user_access(2, "edit"));
    assert!(item.can_user_access(3, "view"));
    assert!(!item.can_user_access(3, "edit"));
}

fn default_settings() -> DriveSettings {
    DriveSettings {
        default_sharing_permissions: SharingPermissions {
            can_view: true,
            can_comment: false,
            can_edit: false,
            can_share: false,
            can_download: true,
        },
        allow_external_sharing: true,
        require_approval_for_sharing: false,
        auto_backup_enabled: true,
        version_history_retention_days: 30,
        trash_retention_days: 30,
    }
}

fn empty_metadata() -> ItemMetadata {
    ItemMetadata {
        description: None,
        tags: Vec::new(),
        custom_properties: Vec::new(),
        thumbnail_url: None,
        preview_url: None,
        download_url: None,
        web_view_url: None,
        version: 1,
        checksum: None,
    }
}

#[test]
fn config_defaults_are_pinned() {
    let config = Config::default();
    assert_eq!(config.server.port, 8080);
    assert_eq!(config.auth.jwt_expiration, 3600);
    assert_eq!(config.websocket.connection_timeout, 300);
    assert_eq!(config.websocket.heartbeat_interval, 30);
    assert_eq!(config.cors.allowed_methods.len(), 5);
}
