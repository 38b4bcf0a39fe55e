use kingshare::codec::{decode_message, encode_message};
use kingshare::message::{NotificationLevel, WebSocketMessage};

#[test]
fn ping_and_pong_frames_are_exact() {
    assert_eq!(encode_message(&WebSocketMessage::Ping), "{\"type\":\"Ping\"}");
    assert_eq!(encode_message(&WebSocketMessage::Pong), "{\"type\":\"Pong\"}");
}

#[test]
fn authenticate_frame_is_exact() {
    let m = WebSocketMessage::Authenticate { token: "abc".to_string() };
    assert_eq!(
        encode_message(&m),
        "{\"type\":\"Authenticate\",\"data\":{\"token\":\"abc\"}}"
    );
}

#[test]
fn system_notification_frame_is_exact() {
    let m = WebSocketMessage::SystemNotification {
        message: "maintenance at noon".to_string(),
        level: NotificationLevel::Warning,
    };
    assert_eq!(
        encode_message(&m),
        "{\"type\":\"SystemNotification\",\"data\":{\"message\":\"maintenance at noon\",\"level\":\"Warning\"}}"
    );
}

#[test]
fn identifier_rendering_is_dashed_hex() {
    let m = WebSocketMessage::ShareExpired {
        share_id: 0x550e8400e29b41d4a716446655440000,
        file_id: 1,
    };
    assert_eq!(
        encode_message(&m),
        "{\"type\":\"ShareExpired\",\"data\":{\"share_id\":\"550e8400-e29b-41d4-a716-446655440000\",\"file_id\":\"00000000-0000-0000-0000-000000000001\"}}"
    );
}

#[test]
fn string_escaping_is_canonical() {
    let m = WebSocketMessage::Error {
        code: "E\"1\\".to_string(),
        message: "line\nbreak".to_string(),
    };
    let encoded = encode_message(&m);
    assert_eq!(
        encoded,
        "{\"type\":\"Error\",\"data\":{\"code\":\"E\\\"1\\\\\",\"message\":\"line\\u000abreak\"}}"
    );
    assert_eq!(decode_message(&encoded), Some(m));
}

#[test]
fn every_variant_round_trips() {
    let samples = vec![
        WebSocketMessage::Authenticate { token: "tok".to_string() },
        WebSocketMessage::AuthenticationResult { success: false, message: "no".to_string() },
        WebSocketMessage::FileUploaded {
            file_id: 42,
            filename: "a.txt".to_string(),
            size: -7,
        },
        WebSocketMessage::FileDeleted { file_id: 3, filename: "b".to_string() },
        WebSocketMessage::FileShared {
            share_id: 1,
            file_id: 2,
            share_token: "s".to_string(),
        },
        WebSocketMessage::ShareAccessed {
            share_id: 9,
            file_id: 8,
            filename: "c".to_string(),
        },
        WebSocketMessage::ShareExpired { share_id: 5, file_id: 6 },
        WebSocketMessage::SystemNotification {
            message: "hello".to_string(),
            level: NotificationLevel::Success,
        },
        WebSocketMessage::UserOnline { user_id: 11, username: "ann".to_string() },
        WebSocketMessage::UserOffline { user_id: 12, username: "bob".to_string() },
        WebSocketMessage::UploadProgress {
            file_id: 13,
            progress: 55,
            bytes_uploaded: 1024,
            total_bytes: 2048,
        },
        WebSocketMessage::DownloadStarted { file_id: 14, filename: "d.bin".to_string() },
        WebSocketMessage::Ping,
        WebSocketMessage::Pong,
        WebSocketMessage::Error { code: "X".to_string(), message: "y".to_string() },
    ];
    for m in samples {
        let frame = encode_message(&m);
        assert_eq!(decode_message(&frame), Some(m));
    }
}

#[test]
fn tolerant_spellings_are_accepted() {
    // Insignificant whitespace anywhere between tokens.
    assert_eq!(decode_message(" {\"type\":\"Ping\"}"), Some(WebSocketMessage::Ping));
    assert_eq!(
        decode_message("  {  \"type\" :  \"Pong\"  }  "),
        Some(WebSocketMessage::Pong)
    );
    // Top-level members and payload fields in any order.
    assert_eq!(
        decode_message(
            "{\"data\":{\"message\":\"no\",\"success\":false},\"type\":\"AuthenticationResult\"}"
        ),
        Some(WebSocketMessage::AuthenticationResult {
            success: false,
            message: "no".to_string(),
        })
    );
    // The full set of JSON string escapes.
    assert_eq!(
        decode_message("{\"type\":\"Authenticate\",\"data\":{\"token\":\"\\u0041\\t\\/\"}}"),
        Some(WebSocketMessage::Authenticate { token: "A\t/".to_string() })
    );
    // Unknown payload fields are ignored, whatever their shape.
    assert_eq!(
        decode_message(
            "{\"type\":\"FileDeleted\",\"data\":{\"extra\":[1,{\"x\":null},2.5e3],\"file_id\":\"00000000-0000-0000-0000-000000000001\",\"filename\":\"a\"}}"
        ),
        Some(WebSocketMessage::FileDeleted { file_id: 1, filename: "a".to_string() })
    );
    // Identifiers in either letter case.
    assert_eq!(
        decode_message(
            "{\"type\":\"ShareExpired\",\"data\":{\"share_id\":\"550E8400-E29B-41D4-A716-446655440000\",\"file_id\":\"00000000-0000-0000-0000-000000000001\"}}"
        ),
        Some(WebSocketMessage::ShareExpired {
            share_id: 0x550e8400e29b41d4a716446655440000,
            file_id: 1,
        })
    );
    // A null payload for a bare variant.
    assert_eq!(
        decode_message("{\"type\":\"Ping\",\"data\":null}"),
        Some(WebSocketMessage::Ping)
    );
}

#[test]
fn malformed_frames_are_rejected() {
    assert_eq!(decode_message(""), None);
    assert_eq!(decode_message("not json"), None);
    assert_eq!(decode_message("{\"type\":\"Nonsense\"}"), None);
    assert_eq!(decode_message("{\"type\":\"Authenticate\",\"data\":{\"token\":\"unterminated}}"), None);
    // A number with a leading zero is not JSON.
    assert_eq!(
        decode_message("{\"type\":\"UploadProgress\",\"data\":{\"file_id\":\"00000000-0000-0000-0000-000000000001\",\"progress\":007,\"bytes_uploaded\":1,\"total_bytes\":1}}"),
        None
    );
    // A fractional value where an integer is expected.
    assert_eq!(
        decode_message("{\"type\":\"UploadProgress\",\"data\":{\"file_id\":\"00000000-0000-0000-0000-000000000001\",\"progress\":1.5,\"bytes_uploaded\":1,\"total_bytes\":1}}"),
        None
    );
    // Duplicate or missing expected fields.
    assert_eq!(
        decode_message("{\"type\":\"Authenticate\",\"data\":{\"token\":\"a\",\"token\":\"b\"}}"),
        None
    );
    assert_eq!(decode_message("{\"type\":\"Authenticate\",\"data\":{}}"), None);
    assert_eq!(decode_message("{\"type\":\"Ping\",\"data\":{}}"), None);
    // A lone surrogate escape.
    assert_eq!(
        decode_message("{\"type\":\"Authenticate\",\"data\":{\"token\":\"\\uD800\"}}"),
        None
    );
    // Unknown keys at the top level.
    assert_eq!(decode_message("{\"type\":\"Ping\",\"more\":1}"), None);
}
