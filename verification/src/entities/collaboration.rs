//! Document collaboration: sessions, comments, suggestions, versions.

use vstd::prelude::*;
use crate::core_types::{Id, Timestamp};

verus! {

#[derive(Debug, Clone, PartialEq)]
pub struct Participant {
    pub user_id: Id,
    pub username: String,
    pub full_name: String,
    pub avatar_url: Option<String>,
    pub cursor_position: Option<CursorPosition>,
    pub selection: Option<TextSelection>,
    pub status: ParticipantStatus,
    pub joined_at: Timestamp,
    pub last_seen_at: Timestamp,
}

#[derive(Debug, Clone, PartialEq)]
pub struct CursorPosition {
    pub line: u32,
    pub column: u32,
    pub offset: u32,
}

#[derive(Debug, Clone, PartialEq)]
pub struct TextSelection {
    pub start: CursorPosition,
    pub end: CursorPosition,
}


#[derive(Debug, Clone, PartialEq)]
pub struct Comment {
    pub id: Id,
    pub document_id: Id,
    pub author_id: Id,
    pub content: String,
    pub anchor: CommentAnchor,
    pub replies: Vec<CommentReply>,
    pub status: CommentStatus,
    pub is_resolved: bool,
    pub resolved_by: Option<Id>,
    pub resolved_at: Option<Timestamp>,
    pub created_at: Timestamp,
    pub updated_at: Timestamp,
}

#[derive(Debug, Clone, PartialEq)]
pub struct CommentAnchor {
    pub anchor_type: AnchorType,
    pub position: u32,
    pub length: Option<u32>,
    pub context: String,
    pub metadata: Vec<(String, String)>,
}

#[derive(Debug, Clone, PartialEq)]
pub struct CommentReply {
    pub id: Id,
    pub author_id: Id,
    pub content: String,
    pub created_at: Timestamp,
    pub updated_at: Timestamp,
}

#[derive(Debug, Clone, PartialEq)]
pub struct SuggestionReviewer {
    pub user_id: Id,
    pub status: ReviewStatus,
    pub feedback: Option<String>,
    pub reviewed_at: Option<Timestamp>,
}


#[derive(Debug, Clone, PartialEq)]
pub struct DocumentVersion {
    pub id: Id,
    pub document_id: Id,
    pub version_number: i64,
    pub title: String,
    pub content_snapshot: String,
    pub changes_summary: String,
    pub author_id: Id,
    pub size: i64,
    pub checksum: String,
    pub is_major_version: bool,
    pub created_at: Timestamp,
}

#[derive(Debug)]
pub struct CreateCommentRequest {
    pub content: String,
    pub anchor: CommentAnchor,
}

#[derive(Debug)]
pub struct UpdateCommentRequest {
    pub content: String,
}

#[derive(Debug)]
pub struct CreateCommentReplyRequest {
    pub content: String,
}

#[derive(Debug)]
pub struct ReviewSuggestionRequest {
    pub status: ReviewStatus,
    pub feedback: Option<String>,
}

#[derive(Debug)]
pub struct CollaborationSessionResponse {
    pub id: Id,
    pub document_id: Id,
    pub participants: Vec<ParticipantResponse>,
    pub version: i64,
    pub is_active: bool,
    pub created_at: Timestamp,
}

#[derive(Debug)]
pub struct ParticipantResponse {
    pub user_id: Id,
    pub username: String,
    pub full_name: String,
    pub avatar_url: Option<String>,
    pub status: ParticipantStatus,
    pub joined_at: Timestamp,
    pub last_seen_at: Timestamp,
}

#[derive(Debug)]
pub struct CommentResponse {
    pub id: Id,
    pub content: String,
    pub anchor: CommentAnchor,
    pub author: CommentAuthor,
    pub replies: Vec<CommentReplyResponse>,
    pub status: CommentStatus,
    pub is_resolved: bool,
    pub resolved_by: Option<CommentAuthor>,
    pub resolved_at: Option<Timestamp>,
    pub created_at: Timestamp,
    pub updated_at: Timestamp,
}

#[derive(Debug)]
pub struct CommentAuthor {
    pub id: Id,
    pub username: String,
    pub full_name: String,
    pub avatar_url: Option<String>,
}

#[derive(Debug)]
pub struct CommentReplyResponse {
    pub id: Id,
    pub content: String,
    pub author: CommentAuthor,
    pub created_at: Timestamp,
    pub updated_at: Timestamp,
}

#[derive(Debug)]
pub struct SuggestionReviewerResponse {
    pub user: CommentAuthor,
    pub status: ReviewStatus,
    pub feedback: Option<String>,
    pub reviewed_at: Option<Timestamp>,
}

#[derive(Debug)]
pub struct DocumentVersionResponse {
    pub id: Id,
    pub version_number: i64,
    pub title: String,
    pub changes_summary: String,
    pub author: CommentAuthor,
    pub size: i64,
    pub is_major_version: bool,
    pub created_at: Timestamp,
}

#[derive(Debug, Clone, PartialEq)]
pub enum ParticipantStatus {
    Active,
    Idle,
    Away,
    Offline,
}

#[derive(Debug, Clone, PartialEq)]
pub enum OperationType {
    Insert,
    Delete,
    Retain,
    Format,
    Replace,
}

#[derive(Debug, Clone, PartialEq)]
pub enum AnchorType {
    Text,
    Cell,
    Slide,
    Element,
    Range,
}

#[derive(Debug, Clone, PartialEq)]
pub enum CommentStatus {
    Open,
    Resolved,
    Deleted,
}

#[derive(Debug, Clone, PartialEq)]
pub enum SuggestionType {
    TextEdit,
    Formatting,
    Structure,
    Content,
    Style,
}

#[derive(Debug, Clone, PartialEq)]
pub enum ChangeType {
    Insert,
    Delete,
    Replace,
    Format,
    Move,
}

#[derive(Debug, Clone, PartialEq)]
pub enum ReviewStatus {
    Pending,
    Approved,
    Rejected,
    RequestChanges,
}

#[derive(Debug, Clone, PartialEq)]
pub enum SuggestionStatus {
    Draft,
    Pending,
    Approved,
    Rejected,
    Applied,
    Cancelled,
}

} // verus!
