//! The closed set of messages exchanged over a real-time connection.
//!
//! Every variant is self-contained data; the protocol keeps no state beyond
//! what a message carries. Each exec type has a spec-level view with string
//! fields as character sequences, and the contracts of the registry and the
//! wire codec speak of those views.

use vstd::prelude::*;
use crate::core_types::{Id, Timestamp, fresh_id, now_ts};
use crate::textform::uuid_string;

verus! {

/// Severity of a system-wide notification.
#[derive(Debug, Clone, Copy, PartialEq, Eq, Structural)]
pub enum NotificationLevel {
    Info,
    Warning,
    Error,
    Success,
}

/// One protocol message, as carried in memory.
#[derive(Debug, Clone, PartialEq)]
pub enum WebSocketMessage {
    Authenticate { token: String },
    AuthenticationResult { success: bool, message: String },
    FileUploaded { file_id: Id, filename: String, size: i64 },
    FileDeleted { file_id: Id, filename: String },
    FileShared { share_id: Id, file_id: Id, share_token: String },
    ShareAccessed { share_id: Id, file_id: Id, filename: String },
    ShareExpired { share_id: Id, file_id: Id },
    SystemNotification { message: String, level: NotificationLevel },
    UserOnline { user_id: Id, username: String },
    UserOffline { user_id: Id, username: String },
    UploadProgress { file_id: Id, progress: u32, bytes_uploaded: u64, total_bytes: u64 },
    DownloadStarted { file_id: Id, filename: String },
    Ping,
    Pong,
    Error { code: String, message: String },
}

/// The mathematical shape of a message: strings become character sequences.
pub enum MessageView {
    Authenticate { token: Seq<char> },
    AuthenticationResult { success: bool, message: Seq<char> },
    FileUploaded { file_id: Id, filename: Seq<char>, size: i64 },
    FileDeleted { file_id: Id, filename: Seq<char> },
    FileShared { share_id: Id, file_id: Id, share_token: Seq<char> },
    ShareAccessed { share_id: Id, file_id: Id, filename: Seq<char> },
    ShareExpired { share_id: Id, file_id: Id },
    SystemNotification { message: Seq<char>, level: NotificationLevel },
    UserOnline { user_id: Id, username: Seq<char> },
    UserOffline { user_id: Id, username: Seq<char> },
    UploadProgress { file_id: Id, progress: u32, bytes_uploaded: u64, total_bytes: u64 },
    DownloadStarted { file_id: Id, filename: Seq<char> },
    Ping,
    Pong,
    Error { code: Seq<char>, message: Seq<char> },
}

impl View for WebSocketMessage {
    type V = MessageView;

    open spec fn view(&self) -> MessageView {
        match self {
            WebSocketMessage::Authenticate { token } => MessageView::Authenticate {
                token: token@,
            },
            WebSocketMessage::AuthenticationResult { success, message } => {
                MessageView::AuthenticationResult { success: *success, message: message@ }
            },
            WebSocketMessage::FileUploaded { file_id, filename, size } => {
                MessageView::FileUploaded {
                    file_id: *file_id,
                    filename: filename@,
                    size: *size,
                }
            },
            WebSocketMessage::FileDeleted { file_id, filename } => MessageView::FileDeleted {
                file_id: *file_id,
                filename: filename@,
            },
            WebSocketMessage::FileShared { share_id, file_id, share_token } => {
                MessageView::FileShared {
                    share_id: *share_id,
                    file_id: *file_id,
                    share_token: share_token@,
                }
            },
            WebSocketMessage::ShareAccessed { share_id, file_id, filename } => {
                MessageView::ShareAccessed {
                    share_id: *share_id,
                    file_id: *file_id,
                    filename: filename@,
                }
            },
            WebSocketMessage::ShareExpired { share_id, file_id } => MessageView::ShareExpired {
                share_id: *share_id,
                file_id: *file_id,
            },
            WebSocketMessage::SystemNotification { message, level } => {
                MessageView::SystemNotification { message: message@, level: *level }
            },
            WebSocketMessage::UserOnline { user_id, username } => MessageView::UserOnline {
                user_id: *user_id,
                username: username@,
            },
            WebSocketMessage::UserOffline { user_id, username } => MessageView::UserOffline {
                user_id: *user_id,
                username: username@,
            },
            WebSocketMessage::UploadProgress {
                file_id,
                progress,
                bytes_uploaded,
                total_bytes,
            } => MessageView::UploadProgress {
                file_id: *file_id,
                progress: *progress,
                bytes_uploaded: *bytes_uploaded,
                total_bytes: *total_bytes,
            },
            WebSocketMessage::DownloadStarted { file_id, filename } => {
                MessageView::DownloadStarted { file_id: *file_id, filename: filename@ }
            },
            WebSocketMessage::Ping => MessageView::Ping,
            WebSocketMessage::Pong => MessageView::Pong,
            WebSocketMessage::Error { code, message } => MessageView::Error {
                code: code@,
                message: message@,
            },
        }
    }
}

impl DeepView for WebSocketMessage {
    type V = MessageView;

    open spec fn deep_view(&self) -> MessageView {
        self.view()
    }
}

/// Clones a message; the copy equals the original.
pub fn clone_message(m: &WebSocketMessage) -> (r: WebSocketMessage)
    ensures
        r == m,
{
    match m {
        WebSocketMessage::Authenticate { token } => WebSocketMessage::Authenticate {
            token: token.clone(),
        },
        WebSocketMessage::AuthenticationResult { success, message } => {
            WebSocketMessage::AuthenticationResult {
                success: *success,
                message: message.clone(),
            }
        },
        WebSocketMessage::FileUploaded { file_id, filename, size } => {
            WebSocketMessage::FileUploaded {
                file_id: *file_id,
                filename: filename.clone(),
                size: *size,
            }
        },
        WebSocketMessage::FileDeleted { file_id, filename } => WebSocketMessage::FileDeleted {
            file_id: *file_id,
            filename: filename.clone(),
        },
        WebSocketMessage::FileShared { share_id, file_id, share_token } => {
            WebSocketMessage::FileShared {
                share_id: *share_id,
                file_id: *file_id,
                share_token: share_token.clone(),
            }
        },
        WebSocketMessage::ShareAccessed { share_id, file_id, filename } => {
            WebSocketMessage::ShareAccessed {
                share_id: *share_id,
                file_id: *file_id,
                filename: filename.clone(),
            }
        },
        WebSocketMessage::ShareExpired { share_id, file_id } => WebSocketMessage::ShareExpired {
            share_id: *share_id,
            file_id: *file_id,
        },
        WebSocketMessage::SystemNotification { message, level } => {
            WebSocketMessage::SystemNotification { message: message.clone(), level: *level }
        },
        WebSocketMessage::UserOnline { user_id, username } => WebSocketMessage::UserOnline {
            user_id: *user_id,
            username: username.clone(),
        },
        WebSocketMessage::UserOffline { user_id, username } => WebSocketMessage::UserOffline {
            user_id: *user_id,
            username: username.clone(),
        },
        WebSocketMessage::UploadProgress {
            file_id,
            progress,
            bytes_uploaded,
            total_bytes,
        } => WebSocketMessage::UploadProgress {
            file_id: *file_id,
            progress: *progress,
            bytes_uploaded: *bytes_uploaded,
            total_bytes: *total_bytes,
        },
        WebSocketMessage::DownloadStarted { file_id, filename } => {
            WebSocketMessage::DownloadStarted { file_id: *file_id, filename: filename.clone() }
        },
        WebSocketMessage::Ping => WebSocketMessage::Ping,
        WebSocketMessage::Pong => WebSocketMessage::Pong,
        WebSocketMessage::Error { code, message } => WebSocketMessage::Error {
            code: code.clone(),
            message: message.clone(),
        },
    }
}

/// One accepted real-time session, optionally tied to a user.
#[derive(Debug, Clone, PartialEq)]
pub struct WebSocketConnection {
    pub connection_id: String,
    pub user_id: Option<Id>,
    pub connected_at: Timestamp,
    pub last_activity: Timestamp,
    pub metadata: Vec<(String, String)>,
}

/// The mathematical shape of a connection record.
pub struct ConnectionView {
    pub connection_id: Seq<char>,
    pub user_id: Option<Id>,
    pub connected_at: int,
    pub last_activity: int,
    pub metadata: Seq<(Seq<char>, Seq<char>)>,
}

impl View for WebSocketConnection {
    type V = ConnectionView;

    open spec fn view(&self) -> ConnectionView {
        ConnectionView {
            connection_id: self.connection_id@,
            user_id: self.user_id,
            connected_at: self.connected_at as int,
            last_activity: self.last_activity as int,
            metadata: self.metadata.deep_view(),
        }
    }
}

impl DeepView for WebSocketConnection {
    type V = ConnectionView;

    open spec fn deep_view(&self) -> ConnectionView {
        self.view()
    }
}

impl WebSocketConnection {
    /// A fresh record for an accepted transport: both timestamps start at
    /// `now` and the metadata map starts empty.
    pub fn new(connection_id: String, user_id: Option<Id>, now: Timestamp) -> (r:
        WebSocketConnection)
        ensures
            r@.connection_id == connection_id@,
            r@.user_id == user_id,
            r@.connected_at == now as int,
            r@.last_activity == now as int,
            r@.metadata == Seq::<(Seq<char>, Seq<char>)>::empty(),
    {
        let r = WebSocketConnection {
            connection_id,
            user_id,
            connected_at: now,
            last_activity: now,
            metadata: Vec::new(),
        };
        proof {
            assert(r.metadata.deep_view() =~= Seq::<(Seq<char>, Seq<char>)>::empty());
        }
        r
    }
}

/// Clones a connection record; the copy has the same view and the same
/// scalar fields.
pub fn clone_connection(c: &WebSocketConnection) -> (r: WebSocketConnection)
    ensures
        r@ == c@,
        r.connection_id == c.connection_id,
        r.user_id == c.user_id,
        r.connected_at == c.connected_at,
        r.last_activity == c.last_activity,
{
    let mut metadata: Vec<(String, String)> = Vec::new();
    let mut i: usize = 0;
    while i < c.metadata.len()
        invariant
            0 <= i <= c.metadata.len(),
            metadata@ =~= c.metadata@.subrange(0, i as int),
        decreases c.metadata.len() - i,
    {
        let key = c.metadata[i].0.clone();
        let value = c.metadata[i].1.clone();
        metadata.push((key, value));
        proof {
            assert(metadata@ =~= c.metadata@.subrange(0, i + 1));
        }
        i = i + 1;
    }
    proof {
        assert(metadata@ =~= c.metadata@);
        assert(metadata.deep_view() =~= c.metadata.deep_view());
    }
    WebSocketConnection {
        connection_id: c.connection_id.clone(),
        user_id: c.user_id,
        connected_at: c.connected_at,
        last_activity: c.last_activity,
        metadata,
    }
}

/// A routed protocol event: a message plus where it should go.
#[derive(Debug, Clone, PartialEq)]
pub struct WebSocketEvent {
    pub id: String,
    pub user_id: Option<Id>,
    pub message: WebSocketMessage,
    pub timestamp: Timestamp,
    pub broadcast: bool,
}

impl WebSocketEvent {
    /// A fresh event carrying `message`; the identifier is drawn at random
    /// and the timestamp is the wall clock, so nothing is promised of them.
    pub fn new(message: WebSocketMessage, user_id: Option<Id>, broadcast: bool) -> (r:
        WebSocketEvent)
        ensures
            r.message == message,
            r.user_id == user_id,
            r.broadcast == broadcast,
            r.id@.len() == 36,
    {
        WebSocketEvent {
            id: uuid_string(fresh_id()),
            user_id,
            message,
            timestamp: now_ts(),
            broadcast,
        }
    }

    /// An event addressed to one user.
    pub fn user_event(message: WebSocketMessage, user_id: Id) -> (r: WebSocketEvent)
        ensures
            r.message == message,
            r.user_id == Some(user_id),
            r.broadcast == false,
            r.id@.len() == 36,
    {
        Self::new(message, Some(user_id), false)
    }

    /// An event addressed to every connection.
    pub fn broadcast_event(message: WebSocketMessage) -> (r: WebSocketEvent)
        ensures
            r.message == message,
            r.user_id == None::<Id>,
            r.broadcast == true,
            r.id@.len() == 36,
    {
        Self::new(message, None, true)
    }

    /// A broadcast system notification with the given severity.
    pub fn system_notification(message: String, level: NotificationLevel) -> (r: WebSocketEvent)
        ensures
            r.message@ == (MessageView::SystemNotification { message: message@, level }),
            r.user_id == None::<Id>,
            r.broadcast == true,
    {
        Self::broadcast_event(WebSocketMessage::SystemNotification { message, level })
    }
}

} // verus!
