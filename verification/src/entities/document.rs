//! Documents and their metadata projections.

use vstd::prelude::*;
use crate::core_types::{Id, Timestamp};

verus! {

#[derive(Debug, Clone, PartialEq)]
pub struct DocumentMetadata {
    pub description: Option<String>,
    pub tags: Vec<String>,
    pub language: String,
    pub word_count: Option<u32>,
    pub character_count: Option<u32>,
    pub page_count: Option<u32>,
    pub custom_properties: Vec<(String, String)>,
}

#[derive(Debug, Clone, PartialEq)]
pub struct DocumentPermissions {
    pub can_view: Vec<Id>,
    pub can_edit: Vec<Id>,
    pub can_comment: Vec<Id>,
    pub can_share: Vec<Id>,
    pub public_access: PublicAccessLevel,
    pub link_sharing: LinkSharingSettings,
}

#[derive(Debug, Clone, PartialEq)]
pub struct LinkSharingSettings {
    pub enabled: bool,
    pub access_level: PublicAccessLevel,
    pub requires_approval: bool,
    pub expires_at: Option<Timestamp>,
}

#[derive(Debug)]
pub struct DocumentSummary {
    pub id: Id,
    pub title: String,
    pub document_type: DocumentType,
    pub owner: DocumentOwner,
    pub permissions: DocumentPermissions,
    pub version: i64,
    pub is_public: bool,
    pub is_template: bool,
    pub created_at: Timestamp,
    pub updated_at: Timestamp,
    pub last_accessed_at: Option<Timestamp>,
    pub metadata: DocumentMetadata,
}

#[derive(Debug)]
pub struct DocumentOwner {
    pub id: Id,
    pub username: String,
    pub full_name: String,
    pub email: String,
}

#[derive(Debug, Clone, PartialEq)]
pub enum DocumentType {
    TextDocument,
    Spreadsheet,
    Presentation,
    Form,
    Drawing,
}

#[derive(Debug, Clone, PartialEq)]
pub enum TextAlignment {
    Left,
    Center,
    Right,
    Justify,
}

#[derive(Debug, Clone, PartialEq)]
pub enum NumberFormat {
    General,
    Number,
    Currency,
    Percentage,
    Date,
    Time,
    Custom(String),
}

#[derive(Debug, Clone, PartialEq)]
pub enum SlideLayout {
    Title,
    TitleAndContent,
    TwoColumn,
    Blank,
    Custom,
}

#[derive(Debug, Clone, PartialEq)]
pub enum SlideElementType {
    Text,
    Image,
    Shape,
    Chart,
    Table,
}

#[derive(Debug, Clone, PartialEq)]
pub enum FormFieldType {
    ShortText,
    LongText,
    Email,
    Number,
    Date,
    Time,
    Select,
    MultiSelect,
    Radio,
    Checkbox,
    FileUpload,
    Rating,
    Scale,
}

#[derive(Debug, Clone, PartialEq)]
pub enum DrawingElementType {
    Rectangle,
    Circle,
    Line,
    Text,
    Image,
    Arrow,
    Freehand,
}

#[derive(Debug, Clone, PartialEq)]
pub enum PublicAccessLevel {
    Private,
    ViewOnly,
    CommentOnly,
    EditAccess,
}

} // verus!
