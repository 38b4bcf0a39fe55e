//! Spreadsheets: grids, formats, ranges, charts, and validation.

use vstd::prelude::*;
use crate::core_types::{Id, Timestamp};

verus! {

#[derive(Debug, Clone, PartialEq)]
pub struct GridProperties {
    pub row_count: u32,
    pub column_count: u32,
    pub frozen_row_count: u32,
    pub frozen_column_count: u32,
    pub hide_gridlines: bool,
    pub row_group_control_after: bool,
    pub column_group_control_after: bool,
}

#[derive(Debug, Clone, PartialEq)]
pub struct NumberFormat {
    pub format_type: NumberFormatType,
    pub pattern: String,
}

#[derive(Debug, Clone, PartialEq)]
pub struct Padding {
    pub top: u32,
    pub right: u32,
    pub bottom: u32,
    pub left: u32,
}

#[derive(Debug, Clone, PartialEq)]
pub struct TextRotation {
    pub angle: i32,
    pub vertical: bool,
}

#[derive(Debug, Clone, PartialEq)]
pub struct GridRange {
    pub sheet_id: String,
    pub start_row_index: u32,
    pub end_row_index: u32,
    pub start_column_index: u32,
    pub end_column_index: u32,
}

#[derive(Debug, Clone, PartialEq)]
pub struct NamedRange {
    pub name: String,
    pub range: GridRange,
    pub description: Option<String>,
}

#[derive(Debug, Clone, PartialEq)]
pub struct ChartPosition {
    pub overlay_position: Option<OverlayPosition>,
    pub new_sheet: bool,
}

#[derive(Debug, Clone, PartialEq)]
pub struct OverlayPosition {
    pub anchor_cell: GridCoordinate,
    pub offset_x_pixels: i32,
    pub offset_y_pixels: i32,
    pub width_pixels: u32,
    pub height_pixels: u32,
}

#[derive(Debug, Clone, PartialEq)]
pub struct GridCoordinate {
    pub sheet_id: String,
    pub row_index: u32,
    pub column_index: u32,
}

#[derive(Debug, Clone, PartialEq)]
pub struct DateTimeRule {
    pub rule_type: DateTimeRuleType,
}

#[derive(Debug, Clone, PartialEq)]
pub struct PivotGroupLimit {
    pub count: u32,
    pub apply_order: i32,
}

#[derive(Debug, Clone, PartialEq)]
pub struct PivotValue {
    pub source_column_offset: u32,
    pub summarize_function: PivotStandardValueFunction,
    pub name: String,
    pub calculated_display_type: PivotValueCalculatedDisplayType,
    pub formula: Option<String>,
}

#[derive(Debug, Clone, PartialEq)]
pub struct DataValidationRule {
    pub range: GridRange,
    pub condition: BooleanCondition,
    pub input_message: Option<String>,
    pub strict: bool,
    pub show_custom_ui: bool,
}

#[derive(Debug, Clone, PartialEq)]
pub struct DataValidation {
    pub condition: BooleanCondition,
    pub input_message: Option<String>,
    pub strict: bool,
    pub show_custom_ui: bool,
}

#[derive(Debug, Clone, PartialEq)]
pub struct BooleanCondition {
    pub condition_type: ConditionType,
    pub values: Vec<ConditionValue>,
}

#[derive(Debug, Clone, PartialEq)]
pub struct ConditionValue {
    pub relative_date: Option<RelativeDate>,
    pub user_entered_value: Option<String>,
}

#[derive(Debug, Clone, PartialEq)]
pub struct ProtectedRange {
    pub range: GridRange,
    pub description: String,
    pub warning_only: bool,
    pub requesting_user_can_edit: bool,
    pub unprotected_ranges: Vec<GridRange>,
    pub editors: Editors,
}

#[derive(Debug, Clone, PartialEq)]
pub struct Editors {
    pub users: Vec<String>,
    pub groups: Vec<String>,
    pub domain_users_can_edit: bool,
}

#[derive(Debug, Clone, PartialEq)]
pub struct CellReference {
    pub sheet_id: Option<String>,
    pub column: String,
    pub row: u32,
    pub absolute_column: bool,
    pub absolute_row: bool,
}

#[derive(Debug)]
pub struct CreateChartRequest {
    pub title: String,
    pub chart_type: ChartType,
    pub data_range: GridRange,
    pub position: ChartPosition,
}

#[derive(Debug, Clone, PartialEq)]
pub enum CellError {
    DivideByZero,
    InvalidReference,
    InvalidValue,
    NotAvailable,
    Name,
    Null,
    Number,
    Reference,
    Value,
}

#[derive(Debug, Clone, PartialEq)]
pub enum NumberFormatType {
    Text,
    Number,
    Percent,
    Currency,
    Date,
    Time,
    DateTime,
    Scientific,
}

#[derive(Debug, Clone, PartialEq)]
pub enum BorderStyle {
    NoBorder,
    Dotted,
    Dashed,
    Solid,
    SolidMedium,
    SolidThick,
    Double,
}

#[derive(Debug, Clone, PartialEq)]
pub enum HorizontalAlignment {
    Left,
    Center,
    Right,
}

#[derive(Debug, Clone, PartialEq)]
pub enum VerticalAlignment {
    Top,
    Middle,
    Bottom,
}

#[derive(Debug, Clone, PartialEq)]
pub enum WrapStrategy {
    OverflowCell,
    LegacyWrap,
    Clip,
    Wrap,
}

#[derive(Debug, Clone, PartialEq)]
pub enum TextDirection {
    LeftToRight,
    RightToLeft,
}

#[derive(Debug, Clone, PartialEq)]
pub enum ChartType {
    Line,
    Area,
    Column,
    Bar,
    Pie,
    Scatter,
    Combo,
    Histogram,
    Candlestick,
    Org,
    Treemap,
    Waterfall,
}

#[derive(Debug, Clone, PartialEq)]
pub enum HiddenDimensionStrategy {
    SkipHiddenRowsAndColumns,
    SkipHiddenRows,
    SkipHiddenColumns,
    ShowAll,
}

#[derive(Debug, Clone, PartialEq)]
pub enum SortOrder {
    Ascending,
    Descending,
}

#[derive(Debug, Clone, PartialEq)]
pub enum DateTimeRuleType {
    Second,
    Minute,
    Hour,
    HourMinute,
    HourMinuteAmPm,
    DayOfWeek,
    DayOfYear,
    DayOfMonth,
    DayMonth,
    Month,
    Quarter,
    Year,
    YearMonth,
    YearQuarter,
    YearMonthDay,
}

#[derive(Debug, Clone, PartialEq)]
pub enum PivotStandardValueFunction {
    Sum,
    Count,
    CountA,
    CountUnique,
    Average,
    Max,
    Min,
    Median,
    Product,
    StDev,
    StDevP,
    Var,
    VarP,
    Custom,
}

#[derive(Debug, Clone, PartialEq)]
pub enum PivotValueCalculatedDisplayType {
    Default,
    PercentOfRowTotal,
    PercentOfColumnTotal,
    PercentOfGrandTotal,
    RunningTotal,
    PercentRunningTotal,
    PercentOfParentRowTotal,
    PercentOfParentColumnTotal,
    PercentOfParentTotal,
}

#[derive(Debug, Clone, PartialEq)]
pub enum ValueLayout {
    Horizontal,
    Vertical,
}

#[derive(Debug, Clone, PartialEq)]
pub enum ConditionType {
    NumberGreater,
    NumberGreaterThanEq,
    NumberLess,
    NumberLessThanEq,
    NumberEq,
    NumberNotEq,
    NumberBetween,
    NumberNotBetween,
    TextContains,
    TextNotContains,
    TextStartsWith,
    TextEndsWith,
    TextEq,
    TextIsEmail,
    TextIsUrl,
    DateEq,
    DateBefore,
    DateAfter,
    DateOnOrBefore,
    DateOnOrAfter,
    DateBetween,
    DateNotBetween,
    DateIsValid,
    OneOfRange,
    OneOfList,
    Blank,
    NotBlank,
    Custom,
    Boolean,
}

#[derive(Debug, Clone, PartialEq)]
pub enum RelativeDate {
    PastYear,
    PastMonth,
    PastWeek,
    Yesterday,
    Today,
    Tomorrow,
}

#[derive(Debug, Clone, PartialEq)]
pub enum InterpolationPointType {
    Min,
    Max,
    Number,
    Percent,
    Percentile,
}

} // verus!
