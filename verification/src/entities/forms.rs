//! Forms: fields, settings, workflows, and analytics requests.

use vstd::prelude::*;
use crate::core_types::{Id, Timestamp};

verus! {

#[derive(Debug, Clone, PartialEq)]
pub struct FieldOption {
    pub id: String,
    pub label: String,
    pub value: String,
    pub description: Option<String>,
    pub image_url: Option<String>,
    pub is_other: bool,
    pub order: u32,
}

#[derive(Debug, Clone, PartialEq)]
pub struct FileInfo {
    pub filename: String,
    pub content_type: String,
    pub size: u64,
    pub url: String,
    pub checksum: String,
}

#[derive(Debug, Clone, PartialEq)]
pub struct SignatureInfo {
    pub image_url: String,
    pub signature_data: String,
    pub timestamp: Timestamp,
}

#[derive(Debug, Clone, PartialEq)]
pub struct FieldProperties {
    pub width: Option<FieldWidth>,
    pub alignment: Option<FieldAlignment>,
    pub show_time: bool,
    pub date_format: Option<String>,
    pub number_format: Option<String>,
    pub currency_code: Option<String>,
    pub scale_min: Option<i32>,
    pub scale_max: Option<i32>,
    pub scale_min_label: Option<String>,
    pub scale_max_label: Option<String>,
    pub rows: Option<u32>,
    pub columns: Option<u32>,
    pub shuffle_options: bool,
    pub allow_other: bool,
    pub calculation_formula: Option<String>,
}

#[derive(Debug, Clone, PartialEq)]
pub struct NotificationSettings {
    pub notify_on_response: bool,
    pub notification_emails: Vec<String>,
    pub email_template: Option<String>,
    pub auto_responder: Option<AutoResponder>,
}

#[derive(Debug, Clone, PartialEq)]
pub struct AutoResponder {
    pub enabled: bool,
    pub subject: String,
    pub message: String,
    pub include_response_copy: bool,
}

#[derive(Debug, Clone, PartialEq)]
pub struct PrivacySettings {
    pub collect_ip_addresses: bool,
    pub collect_user_agent: bool,
    pub collect_location: bool,
    pub data_retention_days: Option<u32>,
    pub gdpr_compliant: bool,
    pub privacy_notice: Option<String>,
}

#[derive(Debug, Clone, PartialEq)]
pub struct FormBranding {
    pub theme: FormTheme,
    pub logo_url: Option<String>,
    pub header_image_url: Option<String>,
    pub custom_css: Option<String>,
    pub font_family: String,
    pub primary_color: String,
    pub background_color: String,
}

#[derive(Debug, Clone, PartialEq)]
pub struct WorkflowAction {
    pub action_type: WorkflowActionType,
    pub parameters: Vec<(String, String)>,
    pub delay: Option<u32>,
}

#[derive(Debug, Clone, PartialEq)]
pub struct Integration {
    pub id: String,
    pub integration_type: IntegrationType,
    pub config: Vec<(String, String)>,
    pub field_mappings: Vec<FieldMapping>,
    pub is_active: bool,
}

#[derive(Debug, Clone, PartialEq)]
pub struct FieldMapping {
    pub form_field_id: String,
    pub external_field_name: String,
    pub transformation: Option<String>,
}

#[derive(Debug, Clone, PartialEq)]
pub struct Calculation {
    pub id: String,
    pub name: String,
    pub formula: String,
    pub result_field_id: String,
    pub dependencies: Vec<String>,
}

#[derive(Debug, Clone, PartialEq)]
pub struct ResponseTrend {
    pub date: String,
    pub responses: i64,
    pub views: i64,
}

#[derive(Debug)]
pub struct CreateFormRequest {
    pub title: String,
    pub description: Option<String>,
    pub template_id: Option<Id>,
}

#[derive(Debug)]
pub struct FormAnalyticsQuery {
    pub start_date: Option<String>,
    pub end_date: Option<String>,
    pub group_by: Option<String>,
}

#[derive(Debug, Clone, PartialEq)]
pub enum FormFieldType {

    ShortText,
    LongText,
    RichText,
    Email,
    Phone,
    Url,
    

    Number,
    Currency,
    Date,
    Time,
    DateTime,
    Duration,
    

    Dropdown,
    MultipleChoice,
    Checkboxes,
    LinearScale,
    MultipleChoiceGrid,
    CheckboxGrid,
    

    FileUpload,
    ImageUpload,
    VideoUpload,
    

    Signature,
    Location,
    Rating,
    Ranking,
    Matrix,
    Calculation,
    

    SectionBreak,
    PageBreak,
    Image,
    Video,
    

    UserLookup,
    Department,
    ApprovalWorkflow,
}

#[derive(Debug, Clone, PartialEq)]
pub enum FieldWidth {
    Short,
    Medium,
    Long,
    Full,
}

#[derive(Debug, Clone, PartialEq)]
pub enum FieldAlignment {
    Left,
    Center,
    Right,
}

#[derive(Debug, Clone, PartialEq)]
pub enum ConditionOperator {
    Equals,
    NotEquals,
    Contains,
    NotContains,
    GreaterThan,
    LessThan,
    GreaterThanOrEqual,
    LessThanOrEqual,
    IsEmpty,
    IsNotEmpty,
    StartsWith,
    EndsWith,
}

#[derive(Debug, Clone, PartialEq)]
pub enum ConditionAction {
    Show,
    Hide,
    Require,
    Optional,
    Skip,
}

#[derive(Debug, Clone, PartialEq)]
pub enum FormTheme {
    Default,
    Modern,
    Classic,
    Minimal,
    Corporate,
    Custom,
}

#[derive(Debug, Clone, PartialEq)]
pub enum WorkflowTrigger {
    OnSubmit,
    OnFieldChange,
    OnConditionMet,
    Scheduled,
}

#[derive(Debug, Clone, PartialEq)]
pub enum WorkflowActionType {
    SendEmail,
    SendSms,
    CreateTask,
    UpdateDatabase,
    CallWebhook,
    GenerateDocument,
    StartApproval,
    SendSlackMessage,
    CreateCalendarEvent,
}

#[derive(Debug, Clone, PartialEq)]
pub enum IntegrationType {
    GoogleSheets,
    Salesforce,
    HubSpot,
    Mailchimp,
    Zapier,
    Slack,
    Teams,
    Webhook,
    Database,
    Crm,
}

#[derive(Debug, Clone, PartialEq)]
pub enum FormStatus {
    Draft,
    Published,
    Paused,
    Closed,
    Archived,
}

#[derive(Debug, Clone, PartialEq)]
pub enum ResponseStatus {
    InProgress,
    Submitted,
    Approved,
    Rejected,
    Flagged,
}

} // verus!
