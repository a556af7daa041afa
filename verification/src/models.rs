//! Domain records of organizations, projects, tasks and the local assistant.
use vstd::prelude::*;
use crate::text::str_eq;
use crate::time::Timestamp;

verus! {

/// The kind of work a project holds.
#[derive(Clone, Copy, Debug, PartialEq, Eq, Structural)]
pub enum ProjectType {
    Software,
    Writing,
    Business,
    FilmStory,
    MarketingPr,
    Research,
    Operations,
    Personal,
    Other,
}

impl ProjectType {
    /// The text form of the value, as its `Display` writes it.
    pub open spec fn text(self) -> Seq<char> {
        match self {
            ProjectType::Software => "software"@,
            ProjectType::Writing => "writing"@,
            ProjectType::Business => "business"@,
            ProjectType::FilmStory => "film_story"@,
            ProjectType::MarketingPr => "marketing_pr"@,
            ProjectType::Research => "research"@,
            ProjectType::Operations => "operations"@,
            ProjectType::Personal => "personal"@,
            ProjectType::Other => "other"@,
        }
    }

    /// The value a text form names, if any.
    pub open spec fn from_text(s: Seq<char>) -> Option<ProjectType> {
        if s == "software"@ {
            Some(ProjectType::Software)
        } else if s == "writing"@ {
            Some(ProjectType::Writing)
        } else if s == "business"@ {
            Some(ProjectType::Business)
        } else if s == "film_story"@ {
            Some(ProjectType::FilmStory)
        } else if s == "marketing_pr"@ {
            Some(ProjectType::MarketingPr)
        } else if s == "research"@ {
            Some(ProjectType::Research)
        } else if s == "operations"@ {
            Some(ProjectType::Operations)
        } else if s == "personal"@ {
            Some(ProjectType::Personal)
        } else if s == "other"@ {
            Some(ProjectType::Other)
        } else {
            None
        }
    }

    /// The text form of the value.
    pub fn as_str(&self) -> (s: &'static str)
        ensures
            s@ == self.text(),
    {
        match self {
            ProjectType::Software => "software",
            ProjectType::Writing => "writing",
            ProjectType::Business => "business",
            ProjectType::FilmStory => "film_story",
            ProjectType::MarketingPr => "marketing_pr",
            ProjectType::Research => "research",
            ProjectType::Operations => "operations",
            ProjectType::Personal => "personal",
            ProjectType::Other => "other",
        }
    }

    /// Parse the text form of a value; `None` for any other text.
    pub fn parse(value: &str) -> (r: Option<ProjectType>)
        ensures
            r == ProjectType::from_text(value@),
    {
        if str_eq(value, "software") {
            Some(ProjectType::Software)
        } else if str_eq(value, "writing") {
            Some(ProjectType::Writing)
        } else if str_eq(value, "business") {
            Some(ProjectType::Business)
        } else if str_eq(value, "film_story") {
            Some(ProjectType::FilmStory)
        } else if str_eq(value, "marketing_pr") {
            Some(ProjectType::MarketingPr)
        } else if str_eq(value, "research") {
            Some(ProjectType::Research)
        } else if str_eq(value, "operations") {
            Some(ProjectType::Operations)
        } else if str_eq(value, "personal") {
            Some(ProjectType::Personal)
        } else if str_eq(value, "other") {
            Some(ProjectType::Other)
        } else {
            None
        }
    }
}

/// Lifecycle state of a project.
#[derive(Clone, Copy, Debug, PartialEq, Eq, Structural)]
pub enum ProjectStatus {
    Active,
    Paused,
    Completed,
    Archived,
}

impl ProjectStatus {
    /// The text form of the value, as its `Display` writes it.
    pub open spec fn text(self) -> Seq<char> {
        match self {
            ProjectStatus::Active => "active"@,
            ProjectStatus::Paused => "paused"@,
            ProjectStatus::Completed => "completed"@,
            ProjectStatus::Archived => "archived"@,
        }
    }

    /// The value a text form names, if any.
    pub open spec fn from_text(s: Seq<char>) -> Option<ProjectStatus> {
        if s == "active"@ {
            Some(ProjectStatus::Active)
        } else if s == "paused"@ {
            Some(ProjectStatus::Paused)
        } else if s == "completed"@ {
            Some(ProjectStatus::Completed)
        } else if s == "archived"@ {
            Some(ProjectStatus::Archived)
        } else {
            None
        }
    }

    /// The text form of the value.
    pub fn as_str(&self) -> (s: &'static str)
        ensures
            s@ == self.text(),
    {
        match self {
            ProjectStatus::Active => "active",
            ProjectStatus::Paused => "paused",
            ProjectStatus::Completed => "completed",
            ProjectStatus::Archived => "archived",
        }
    }

    /// Parse the text form of a value; `None` for any other text.
    pub fn parse(value: &str) -> (r: Option<ProjectStatus>)
        ensures
            r == ProjectStatus::from_text(value@),
    {
        if str_eq(value, "active") {
            Some(ProjectStatus::Active)
        } else if str_eq(value, "paused") {
            Some(ProjectStatus::Paused)
        } else if str_eq(value, "completed") {
            Some(ProjectStatus::Completed)
        } else if str_eq(value, "archived") {
            Some(ProjectStatus::Archived)
        } else {
            None
        }
    }
}

/// Lifecycle state of a task.
#[derive(Clone, Copy, Debug, PartialEq, Eq, Structural)]
pub enum TaskStatus {
    Inbox,
    Backlog,
    Scheduled,
    Ready,
    InProgress,
    Blocked,
    Waiting,
    Done,
    Canceled,
}

impl TaskStatus {
    /// The text form of the value, as its `Display` writes it.
    pub open spec fn text(self) -> Seq<char> {
        match self {
            TaskStatus::Inbox => "inbox"@,
            TaskStatus::Backlog => "backlog"@,
            TaskStatus::Scheduled => "scheduled"@,
            TaskStatus::Ready => "ready"@,
            TaskStatus::InProgress => "in_progress"@,
            TaskStatus::Blocked => "blocked"@,
            TaskStatus::Waiting => "waiting"@,
            TaskStatus::Done => "done"@,
            TaskStatus::Canceled => "canceled"@,
        }
    }

    /// The value a text form names, if any.
    pub open spec fn from_text(s: Seq<char>) -> Option<TaskStatus> {
        if s == "inbox"@ {
            Some(TaskStatus::Inbox)
        } else if s == "backlog"@ {
            Some(TaskStatus::Backlog)
        } else if s == "scheduled"@ {
            Some(TaskStatus::Scheduled)
        } else if s == "ready"@ {
            Some(TaskStatus::Ready)
        } else if s == "in_progress"@ {
            Some(TaskStatus::InProgress)
        } else if s == "blocked"@ {
            Some(TaskStatus::Blocked)
        } else if s == "waiting"@ {
            Some(TaskStatus::Waiting)
        } else if s == "done"@ {
            Some(TaskStatus::Done)
        } else if s == "canceled"@ {
            Some(TaskStatus::Canceled)
        } else {
            None
        }
    }

    /// The text form of the value.
    pub fn as_str(&self) -> (s: &'static str)
        ensures
            s@ == self.text(),
    {
        match self {
            TaskStatus::Inbox => "inbox",
            TaskStatus::Backlog => "backlog",
            TaskStatus::Scheduled => "scheduled",
            TaskStatus::Ready => "ready",
            TaskStatus::InProgress => "in_progress",
            TaskStatus::Blocked => "blocked",
            TaskStatus::Waiting => "waiting",
            TaskStatus::Done => "done",
            TaskStatus::Canceled => "canceled",
        }
    }

    /// Parse the text form of a value; `None` for any other text.
    pub fn parse(value: &str) -> (r: Option<TaskStatus>)
        ensures
            r == TaskStatus::from_text(value@),
    {
        if str_eq(value, "inbox") {
            Some(TaskStatus::Inbox)
        } else if str_eq(value, "backlog") {
            Some(TaskStatus::Backlog)
        } else if str_eq(value, "scheduled") {
            Some(TaskStatus::Scheduled)
        } else if str_eq(value, "ready") {
            Some(TaskStatus::Ready)
        } else if str_eq(value, "in_progress") {
            Some(TaskStatus::InProgress)
        } else if str_eq(value, "blocked") {
            Some(TaskStatus::Blocked)
        } else if str_eq(value, "waiting") {
            Some(TaskStatus::Waiting)
        } else if str_eq(value, "done") {
            Some(TaskStatus::Done)
        } else if str_eq(value, "canceled") {
            Some(TaskStatus::Canceled)
        } else {
            None
        }
    }
}

/// Field a task listing is ordered by.
#[derive(Clone, Copy, Debug, PartialEq, Eq, Structural)]
pub enum TaskSortField {
    Urgency,
    Priority,
    DueAt,
    Status,
    Project,
    Organization,
    CreatedAt,
    UpdatedAt,
    Tag,
}

impl TaskSortField {
    /// The text form of the value, as its `Display` writes it.
    pub open spec fn text(self) -> Seq<char> {
        match self {
            TaskSortField::Urgency => "urgency"@,
            TaskSortField::Priority => "priority"@,
            TaskSortField::DueAt => "due_at"@,
            TaskSortField::Status => "status"@,
            TaskSortField::Project => "project"@,
            TaskSortField::Organization => "organization"@,
            TaskSortField::CreatedAt => "created_at"@,
            TaskSortField::UpdatedAt => "updated_at"@,
            TaskSortField::Tag => "tag"@,
        }
    }

    /// The value a text form names, if any.
    pub open spec fn from_text(s: Seq<char>) -> Option<TaskSortField> {
        if s == "urgency"@ {
            Some(TaskSortField::Urgency)
        } else if s == "priority"@ {
            Some(TaskSortField::Priority)
        } else if s == "due_at"@ {
            Some(TaskSortField::DueAt)
        } else if s == "status"@ {
            Some(TaskSortField::Status)
        } else if s == "project"@ {
            Some(TaskSortField::Project)
        } else if s == "organization"@ {
            Some(TaskSortField::Organization)
        } else if s == "created_at"@ {
            Some(TaskSortField::CreatedAt)
        } else if s == "updated_at"@ {
            Some(TaskSortField::UpdatedAt)
        } else if s == "tag"@ {
            Some(TaskSortField::Tag)
        } else {
            None
        }
    }

    /// The text form of the value.
    pub fn as_str(&self) -> (s: &'static str)
        ensures
            s@ == self.text(),
    {
        match self {
            TaskSortField::Urgency => "urgency",
            TaskSortField::Priority => "priority",
            TaskSortField::DueAt => "due_at",
            TaskSortField::Status => "status",
            TaskSortField::Project => "project",
            TaskSortField::Organization => "organization",
            TaskSortField::CreatedAt => "created_at",
            TaskSortField::UpdatedAt => "updated_at",
            TaskSortField::Tag => "tag",
        }
    }

    /// Parse the text form of a value; `None` for any other text.
    pub fn parse(value: &str) -> (r: Option<TaskSortField>)
        ensures
            r == TaskSortField::from_text(value@),
    {
        if str_eq(value, "urgency") {
            Some(TaskSortField::Urgency)
        } else if str_eq(value, "priority") {
            Some(TaskSortField::Priority)
        } else if str_eq(value, "due_at") {
            Some(TaskSortField::DueAt)
        } else if str_eq(value, "status") {
            Some(TaskSortField::Status)
        } else if str_eq(value, "project") {
            Some(TaskSortField::Project)
        } else if str_eq(value, "organization") {
            Some(TaskSortField::Organization)
        } else if str_eq(value, "created_at") {
            Some(TaskSortField::CreatedAt)
        } else if str_eq(value, "updated_at") {
            Some(TaskSortField::UpdatedAt)
        } else if str_eq(value, "tag") {
            Some(TaskSortField::Tag)
        } else {
            None
        }
    }
}

/// How a scheduled task repeats.
#[derive(Clone, Copy, Debug, PartialEq, Eq, Structural)]
pub enum RecurrenceRule {
    NoRecurrence,
    Daily,
    Weekdays,
    Weekly,
    Monthly,
}

impl RecurrenceRule {
    /// The text form of the value, as its `Display` writes it.
    pub open spec fn text(self) -> Seq<char> {
        match self {
            RecurrenceRule::NoRecurrence => "none"@,
            RecurrenceRule::Daily => "daily"@,
            RecurrenceRule::Weekdays => "weekdays"@,
            RecurrenceRule::Weekly => "weekly"@,
            RecurrenceRule::Monthly => "monthly"@,
        }
    }

    /// The value a text form names, if any.
    pub open spec fn from_text(s: Seq<char>) -> Option<RecurrenceRule> {
        if s == "none"@ {
            Some(RecurrenceRule::NoRecurrence)
        } else if s == "daily"@ {
            Some(RecurrenceRule::Daily)
        } else if s == "weekdays"@ {
            Some(RecurrenceRule::Weekdays)
        } else if s == "weekly"@ {
            Some(RecurrenceRule::Weekly)
        } else if s == "monthly"@ {
            Some(RecurrenceRule::Monthly)
        } else {
            None
        }
    }

    /// The text form of the value.
    pub fn as_str(&self) -> (s: &'static str)
        ensures
            s@ == self.text(),
    {
        match self {
            RecurrenceRule::NoRecurrence => "none",
            RecurrenceRule::Daily => "daily",
            RecurrenceRule::Weekdays => "weekdays",
            RecurrenceRule::Weekly => "weekly",
            RecurrenceRule::Monthly => "monthly",
        }
    }

    /// Parse the text form of a value; `None` for any other text.
    pub fn parse(value: &str) -> (r: Option<RecurrenceRule>)
        ensures
            r == RecurrenceRule::from_text(value@),
    {
        if str_eq(value, "none") {
            Some(RecurrenceRule::NoRecurrence)
        } else if str_eq(value, "daily") {
            Some(RecurrenceRule::Daily)
        } else if str_eq(value, "weekdays") {
            Some(RecurrenceRule::Weekdays)
        } else if str_eq(value, "weekly") {
            Some(RecurrenceRule::Weekly)
        } else if str_eq(value, "monthly") {
            Some(RecurrenceRule::Monthly)
        } else {
            None
        }
    }
}

/// Where a calendar block came from.
#[derive(Clone, Copy, Debug, PartialEq, Eq, Structural)]
pub enum CalendarBlockSource {
    OpenMgmt,
    ImportedIcs,
    GoogleCalendarFuture,
    OutlookFuture,
}

impl CalendarBlockSource {
    /// The text form of the value, as its `Display` writes it.
    pub open spec fn text(self) -> Seq<char> {
        match self {
            CalendarBlockSource::OpenMgmt => "openmgmt"@,
            CalendarBlockSource::ImportedIcs => "imported_ics"@,
            CalendarBlockSource::GoogleCalendarFuture => "google_calendar_future"@,
            CalendarBlockSource::OutlookFuture => "outlook_future"@,
        }
    }

    /// The value a text form names, if any.
    pub open spec fn from_text(s: Seq<char>) -> Option<CalendarBlockSource> {
        if s == "openmgmt"@ {
            Some(CalendarBlockSource::OpenMgmt)
        } else if s == "imported_ics"@ {
            Some(CalendarBlockSource::ImportedIcs)
        } else if s == "google_calendar_future"@ {
            Some(CalendarBlockSource::GoogleCalendarFuture)
        } else if s == "outlook_future"@ {
            Some(CalendarBlockSource::OutlookFuture)
        } else {
            None
        }
    }

    /// The text form of the value.
    pub fn as_str(&self) -> (s: &'static str)
        ensures
            s@ == self.text(),
    {
        match self {
            CalendarBlockSource::OpenMgmt => "openmgmt",
            CalendarBlockSource::ImportedIcs => "imported_ics",
            CalendarBlockSource::GoogleCalendarFuture => "google_calendar_future",
            CalendarBlockSource::OutlookFuture => "outlook_future",
        }
    }

    /// Parse the text form of a value; `None` for any other text.
    pub fn parse(value: &str) -> (r: Option<CalendarBlockSource>)
        ensures
            r == CalendarBlockSource::from_text(value@),
    {
        if str_eq(value, "openmgmt") {
            Some(CalendarBlockSource::OpenMgmt)
        } else if str_eq(value, "imported_ics") {
            Some(CalendarBlockSource::ImportedIcs)
        } else if str_eq(value, "google_calendar_future") {
            Some(CalendarBlockSource::GoogleCalendarFuture)
        } else if str_eq(value, "outlook_future") {
            Some(CalendarBlockSource::OutlookFuture)
        } else {
            None
        }
    }
}

/// State of a calendar block.
#[derive(Clone, Copy, Debug, PartialEq, Eq, Structural)]
pub enum CalendarBlockStatus {
    Planned,
    Completed,
    Skipped,
    Moved,
    Canceled,
    OnHold,
}

impl CalendarBlockStatus {
    /// The text form of the value, as its `Display` writes it.
    pub open spec fn text(self) -> Seq<char> {
        match self {
            CalendarBlockStatus::Planned => "planned"@,
            CalendarBlockStatus::Completed => "completed"@,
            CalendarBlockStatus::Skipped => "skipped"@,
            CalendarBlockStatus::Moved => "moved"@,
            CalendarBlockStatus::Canceled => "canceled"@,
            CalendarBlockStatus::OnHold => "on_hold"@,
        }
    }

    /// The value a text form names, if any.
    pub open spec fn from_text(s: Seq<char>) -> Option<CalendarBlockStatus> {
        if s == "planned"@ {
            Some(CalendarBlockStatus::Planned)
        } else if s == "completed"@ {
            Some(CalendarBlockStatus::Completed)
        } else if s == "skipped"@ {
            Some(CalendarBlockStatus::Skipped)
        } else if s == "moved"@ {
            Some(CalendarBlockStatus::Moved)
        } else if s == "canceled"@ {
            Some(CalendarBlockStatus::Canceled)
        } else if s == "on_hold"@ {
            Some(CalendarBlockStatus::OnHold)
        } else {
            None
        }
    }

    /// The text form of the value.
    pub fn as_str(&self) -> (s: &'static str)
        ensures
            s@ == self.text(),
    {
        match self {
            CalendarBlockStatus::Planned => "planned",
            CalendarBlockStatus::Completed => "completed",
            CalendarBlockStatus::Skipped => "skipped",
            CalendarBlockStatus::Moved => "moved",
            CalendarBlockStatus::Canceled => "canceled",
            CalendarBlockStatus::OnHold => "on_hold",
        }
    }

    /// Parse the text form of a value; `None` for any other text.
    pub fn parse(value: &str) -> (r: Option<CalendarBlockStatus>)
        ensures
            r == CalendarBlockStatus::from_text(value@),
    {
        if str_eq(value, "planned") {
            Some(CalendarBlockStatus::Planned)
        } else if str_eq(value, "completed") {
            Some(CalendarBlockStatus::Completed)
        } else if str_eq(value, "skipped") {
            Some(CalendarBlockStatus::Skipped)
        } else if str_eq(value, "moved") {
            Some(CalendarBlockStatus::Moved)
        } else if str_eq(value, "canceled") {
            Some(CalendarBlockStatus::Canceled)
        } else if str_eq(value, "on_hold") {
            Some(CalendarBlockStatus::OnHold)
        } else {
            None
        }
    }
}

/// Author of a local AI chat message.
#[derive(Clone, Copy, Debug, PartialEq, Eq, Structural)]
pub enum LocalAiChatRole {
    User,
    Assistant,
    System,
    Tool,
}

impl LocalAiChatRole {
    /// The text form of the value, as its `Display` writes it.
    pub open spec fn text(self) -> Seq<char> {
        match self {
            LocalAiChatRole::User => "user"@,
            LocalAiChatRole::Assistant => "assistant"@,
            LocalAiChatRole::System => "system"@,
            LocalAiChatRole::Tool => "tool"@,
        }
    }

    /// The value a text form names, if any.
    pub open spec fn from_text(s: Seq<char>) -> Option<LocalAiChatRole> {
        if s == "user"@ {
            Some(LocalAiChatRole::User)
        } else if s == "assistant"@ {
            Some(LocalAiChatRole::Assistant)
        } else if s == "system"@ {
            Some(LocalAiChatRole::System)
        } else if s == "tool"@ {
            Some(LocalAiChatRole::Tool)
        } else {
            None
        }
    }

    /// The text form of the value.
    pub fn as_str(&self) -> (s: &'static str)
        ensures
            s@ == self.text(),
    {
        match self {
            LocalAiChatRole::User => "user",
            LocalAiChatRole::Assistant => "assistant",
            LocalAiChatRole::System => "system",
            LocalAiChatRole::Tool => "tool",
        }
    }

    /// Parse the text form of a value; `None` for any other text.
    pub fn parse(value: &str) -> (r: Option<LocalAiChatRole>)
        ensures
            r == LocalAiChatRole::from_text(value@),
    {
        if str_eq(value, "user") {
            Some(LocalAiChatRole::User)
        } else if str_eq(value, "assistant") {
            Some(LocalAiChatRole::Assistant)
        } else if str_eq(value, "system") {
            Some(LocalAiChatRole::System)
        } else if str_eq(value, "tool") {
            Some(LocalAiChatRole::Tool)
        } else {
            None
        }
    }
}

/// State of a proposed local AI tool call.
#[derive(Clone, Copy, Debug, PartialEq, Eq, Structural)]
pub enum LocalAiToolCallStatus {
    Proposed,
    Confirmed,
    Executed,
    Failed,
    Canceled,
}

impl LocalAiToolCallStatus {
    /// The text form of the value, as its `Display` writes it.
    pub open spec fn text(self) -> Seq<char> {
        match self {
            LocalAiToolCallStatus::Proposed => "proposed"@,
            LocalAiToolCallStatus::Confirmed => "confirmed"@,
            LocalAiToolCallStatus::Executed => "executed"@,
            LocalAiToolCallStatus::Failed => "failed"@,
            LocalAiToolCallStatus::Canceled => "canceled"@,
        }
    }

    /// The value a text form names, if any.
    pub open spec fn from_text(s: Seq<char>) -> Option<LocalAiToolCallStatus> {
        if s == "proposed"@ {
            Some(LocalAiToolCallStatus::Proposed)
        } else if s == "confirmed"@ {
            Some(LocalAiToolCallStatus::Confirmed)
        } else if s == "executed"@ {
            Some(LocalAiToolCallStatus::Executed)
        } else if s == "failed"@ {
            Some(LocalAiToolCallStatus::Failed)
        } else if s == "canceled"@ {
            Some(LocalAiToolCallStatus::Canceled)
        } else {
            None
        }
    }

    /// The text form of the value.
    pub fn as_str(&self) -> (s: &'static str)
        ensures
            s@ == self.text(),
    {
        match self {
            LocalAiToolCallStatus::Proposed => "proposed",
            LocalAiToolCallStatus::Confirmed => "confirmed",
            LocalAiToolCallStatus::Executed => "executed",
            LocalAiToolCallStatus::Failed => "failed",
            LocalAiToolCallStatus::Canceled => "canceled",
        }
    }

    /// Parse the text form of a value; `None` for any other text.
    pub fn parse(value: &str) -> (r: Option<LocalAiToolCallStatus>)
        ensures
            r == LocalAiToolCallStatus::from_text(value@),
    {
        if str_eq(value, "proposed") {
            Some(LocalAiToolCallStatus::Proposed)
        } else if str_eq(value, "confirmed") {
            Some(LocalAiToolCallStatus::Confirmed)
        } else if str_eq(value, "executed") {
            Some(LocalAiToolCallStatus::Executed)
        } else if str_eq(value, "failed") {
            Some(LocalAiToolCallStatus::Failed)
        } else if str_eq(value, "canceled") {
            Some(LocalAiToolCallStatus::Canceled)
        } else {
            None
        }
    }
}

/// How much workspace context a local AI turn receives.
#[derive(Clone, Copy, Debug, PartialEq, Eq, Structural)]
pub enum LocalAiContextScope {
    Minimal,
    Daily,
    Project,
    Task,
    Schedule,
    FullSummary,
}

impl LocalAiContextScope {
    /// The text form of the value, as its `Display` writes it.
    pub open spec fn text(self) -> Seq<char> {
        match self {
            LocalAiContextScope::Minimal => "minimal"@,
            LocalAiContextScope::Daily => "daily"@,
            LocalAiContextScope::Project => "project"@,
            LocalAiContextScope::Task => "task"@,
            LocalAiContextScope::Schedule => "schedule"@,
            LocalAiContextScope::FullSummary => "full_summary"@,
        }
    }

    /// The value a text form names, if any.
    pub open spec fn from_text(s: Seq<char>) -> Option<LocalAiContextScope> {
        if s == "minimal"@ {
            Some(LocalAiContextScope::Minimal)
        } else if s == "daily"@ {
            Some(LocalAiContextScope::Daily)
        } else if s == "project"@ {
            Some(LocalAiContextScope::Project)
        } else if s == "task"@ {
            Some(LocalAiContextScope::Task)
        } else if s == "schedule"@ {
            Some(LocalAiContextScope::Schedule)
        } else if s == "full_summary"@ {
            Some(LocalAiContextScope::FullSummary)
        } else {
            None
        }
    }

    /// The text form of the value.
    pub fn as_str(&self) -> (s: &'static str)
        ensures
            s@ == self.text(),
    {
        match self {
            LocalAiContextScope::Minimal => "minimal",
            LocalAiContextScope::Daily => "daily",
            LocalAiContextScope::Project => "project",
            LocalAiContextScope::Task => "task",
            LocalAiContextScope::Schedule => "schedule",
            LocalAiContextScope::FullSummary => "full_summary",
        }
    }

    /// Parse the text form of a value; `None` for any other text.
    pub fn parse(value: &str) -> (r: Option<LocalAiContextScope>)
        ensures
            r == LocalAiContextScope::from_text(value@),
    {
        if str_eq(value, "minimal") {
            Some(LocalAiContextScope::Minimal)
        } else if str_eq(value, "daily") {
            Some(LocalAiContextScope::Daily)
        } else if str_eq(value, "project") {
            Some(LocalAiContextScope::Project)
        } else if str_eq(value, "task") {
            Some(LocalAiContextScope::Task)
        } else if str_eq(value, "schedule") {
            Some(LocalAiContextScope::Schedule)
        } else if str_eq(value, "full_summary") {
            Some(LocalAiContextScope::FullSummary)
        } else {
            None
        }
    }
}

/// What the local assistant may do with write tools.
#[derive(Clone, Copy, Debug, PartialEq, Eq, Structural)]
pub enum LocalAiAccessMode {
    ReadOnly,
    AskBeforeWrite,
    FullAccess,
}

impl LocalAiAccessMode {
    /// The text form of the value, as its `Display` writes it.
    pub open spec fn text(self) -> Seq<char> {
        match self {
            LocalAiAccessMode::ReadOnly => "read_only"@,
            LocalAiAccessMode::AskBeforeWrite => "ask_before_write"@,
            LocalAiAccessMode::FullAccess => "full_access"@,
        }
    }

    /// The value a text form names, if any.
    pub open spec fn from_text(s: Seq<char>) -> Option<LocalAiAccessMode> {
        if s == "read_only"@ {
            Some(LocalAiAccessMode::ReadOnly)
        } else if s == "ask_before_write"@ {
            Some(LocalAiAccessMode::AskBeforeWrite)
        } else if s == "full_access"@ {
            Some(LocalAiAccessMode::FullAccess)
        } else {
            None
        }
    }

    /// The text form of the value.
    pub fn as_str(&self) -> (s: &'static str)
        ensures
            s@ == self.text(),
    {
        match self {
            LocalAiAccessMode::ReadOnly => "read_only",
            LocalAiAccessMode::AskBeforeWrite => "ask_before_write",
            LocalAiAccessMode::FullAccess => "full_access",
        }
    }

    /// Parse the text form of a value; `None` for any other text.
    pub fn parse(value: &str) -> (r: Option<LocalAiAccessMode>)
        ensures
            r == LocalAiAccessMode::from_text(value@),
    {
        if str_eq(value, "read_only") {
            Some(LocalAiAccessMode::ReadOnly)
        } else if str_eq(value, "ask_before_write") {
            Some(LocalAiAccessMode::AskBeforeWrite)
        } else if str_eq(value, "full_access") {
            Some(LocalAiAccessMode::FullAccess)
        } else {
            None
        }
    }
}

/// Kind of AI provider.
#[derive(Clone, Copy, Debug, PartialEq, Eq, Structural)]
pub enum AiProviderKind {
    OpenAi,
    Anthropic,
    LocalOpenAiCompatible,
    Ollama,
    LmStudio,
    CustomOpenAiCompatible,
}

impl AiProviderKind {
    /// The text form of the value, as its `Display` writes it.
    pub open spec fn text(self) -> Seq<char> {
        match self {
            AiProviderKind::OpenAi => "openai"@,
            AiProviderKind::Anthropic => "anthropic"@,
            AiProviderKind::LocalOpenAiCompatible => "local_openai_compatible"@,
            AiProviderKind::Ollama => "ollama"@,
            AiProviderKind::LmStudio => "lm_studio"@,
            AiProviderKind::CustomOpenAiCompatible => "custom_openai_compatible"@,
        }
    }

    /// The value a text form names, if any.
    pub open spec fn from_text(s: Seq<char>) -> Option<AiProviderKind> {
        if s == "openai"@ {
            Some(AiProviderKind::OpenAi)
        } else if s == "anthropic"@ {
            Some(AiProviderKind::Anthropic)
        } else if s == "local_openai_compatible"@ {
            Some(AiProviderKind::LocalOpenAiCompatible)
        } else if s == "ollama"@ {
            Some(AiProviderKind::Ollama)
        } else if s == "lm_studio"@ {
            Some(AiProviderKind::LmStudio)
        } else if s == "custom_openai_compatible"@ {
            Some(AiProviderKind::CustomOpenAiCompatible)
        } else {
            None
        }
    }

    /// The text form of the value.
    pub fn as_str(&self) -> (s: &'static str)
        ensures
            s@ == self.text(),
    {
        match self {
            AiProviderKind::OpenAi => "openai",
            AiProviderKind::Anthropic => "anthropic",
            AiProviderKind::LocalOpenAiCompatible => "local_openai_compatible",
            AiProviderKind::Ollama => "ollama",
            AiProviderKind::LmStudio => "lm_studio",
            AiProviderKind::CustomOpenAiCompatible => "custom_openai_compatible",
        }
    }

    /// Parse the text form of a value; `None` for any other text.
    pub fn parse(value: &str) -> (r: Option<AiProviderKind>)
        ensures
            r == AiProviderKind::from_text(value@),
    {
        if str_eq(value, "openai") {
            Some(AiProviderKind::OpenAi)
        } else if str_eq(value, "anthropic") {
            Some(AiProviderKind::Anthropic)
        } else if str_eq(value, "local_openai_compatible") {
            Some(AiProviderKind::LocalOpenAiCompatible)
        } else if str_eq(value, "ollama") {
            Some(AiProviderKind::Ollama)
        } else if str_eq(value, "lm_studio") {
            Some(AiProviderKind::LmStudio)
        } else if str_eq(value, "custom_openai_compatible") {
            Some(AiProviderKind::CustomOpenAiCompatible)
        } else {
            None
        }
    }
}

/// Whether an AI tool reads or writes data.
#[derive(Clone, Copy, Debug, PartialEq, Eq, Structural)]
pub enum AiToolAccess {
    Read,
    Write,
}

impl AiToolAccess {
    /// The text form of the value, as its `Display` writes it.
    pub open spec fn text(self) -> Seq<char> {
        match self {
            AiToolAccess::Read => "read"@,
            AiToolAccess::Write => "write"@,
        }
    }

    /// The value a text form names, if any.
    pub open spec fn from_text(s: Seq<char>) -> Option<AiToolAccess> {
        if s == "read"@ {
            Some(AiToolAccess::Read)
        } else if s == "write"@ {
            Some(AiToolAccess::Write)
        } else {
            None
        }
    }

    /// The text form of the value.
    pub fn as_str(&self) -> (s: &'static str)
        ensures
            s@ == self.text(),
    {
        match self {
            AiToolAccess::Read => "read",
            AiToolAccess::Write => "write",
        }
    }

    /// Parse the text form of a value; `None` for any other text.
    pub fn parse(value: &str) -> (r: Option<AiToolAccess>)
        ensures
            r == AiToolAccess::from_text(value@),
    {
        if str_eq(value, "read") {
            Some(AiToolAccess::Read)
        } else if str_eq(value, "write") {
            Some(AiToolAccess::Write)
        } else {
            None
        }
    }
}

/// Permission an AI tool requires.
#[derive(Clone, Copy, Debug, PartialEq, Eq, Structural)]
pub enum AiToolPermission {
    ReadData,
    WriteData,
}

impl AiToolPermission {
    /// The text form of the value, as its `Display` writes it.
    pub open spec fn text(self) -> Seq<char> {
        match self {
            AiToolPermission::ReadData => "read_data"@,
            AiToolPermission::WriteData => "write_data"@,
        }
    }

    /// The value a text form names, if any.
    pub open spec fn from_text(s: Seq<char>) -> Option<AiToolPermission> {
        if s == "read_data"@ {
            Some(AiToolPermission::ReadData)
        } else if s == "write_data"@ {
            Some(AiToolPermission::WriteData)
        } else {
            None
        }
    }

    /// The text form of the value.
    pub fn as_str(&self) -> (s: &'static str)
        ensures
            s@ == self.text(),
    {
        match self {
            AiToolPermission::ReadData => "read_data",
            AiToolPermission::WriteData => "write_data",
        }
    }

    /// Parse the text form of a value; `None` for any other text.
    pub fn parse(value: &str) -> (r: Option<AiToolPermission>)
        ensures
            r == AiToolPermission::from_text(value@),
    {
        if str_eq(value, "read_data") {
            Some(AiToolPermission::ReadData)
        } else if str_eq(value, "write_data") {
            Some(AiToolPermission::WriteData)
        } else {
            None
        }
    }
}

impl Default for ProjectType {
    fn default() -> (r: Self)
        ensures
            r == ProjectType::Other,
    {
        ProjectType::Other
    }
}

impl Default for ProjectStatus {
    fn default() -> (r: Self)
        ensures
            r == ProjectStatus::Active,
    {
        ProjectStatus::Active
    }
}

impl Default for TaskStatus {
    fn default() -> (r: Self)
        ensures
            r == TaskStatus::Inbox,
    {
        TaskStatus::Inbox
    }
}

impl Default for LocalAiContextScope {
    fn default() -> (r: Self)
        ensures
            r == LocalAiContextScope::Daily,
    {
        LocalAiContextScope::Daily
    }
}

/// Default priority of new projects and tasks: P3.
pub fn default_priority() -> (p: i32)
    ensures
        p == 3,
{
    3
}

/// Task listings are ordered most-urgent first unless asked otherwise.
pub fn default_sort_descending() -> (d: bool)
    ensures
        d,
{
    true
}

/// An organization that owns projects.
#[derive(Clone, Debug)]
pub struct Organization {
    pub id: String,
    pub name: String,
    pub slug: String,
    pub description: Option<String>,
    pub color: Option<String>,
    pub icon: Option<String>,
    pub created_at: Timestamp,
    pub updated_at: Timestamp,
    pub archived_at: Option<Timestamp>,
}

/// A project inside an organization.
#[derive(Clone, Debug)]
pub struct Project {
    pub id: String,
    pub organization_id: String,
    pub name: String,
    pub slug: String,
    pub description: Option<String>,
    pub project_type: ProjectType,
    pub status: ProjectStatus,
    pub priority: i32,
    pub deadline: Option<Timestamp>,
    pub repo_url: Option<String>,
    pub notes: Option<String>,
    pub created_at: Timestamp,
    pub updated_at: Timestamp,
    pub archived_at: Option<Timestamp>,
}

/// A task inside a project.
#[derive(Clone, Debug)]
pub struct Task {
    pub id: String,
    pub project_id: String,
    pub title: String,
    pub description: Option<String>,
    pub status: TaskStatus,
    pub priority: i32,
    pub due_at: Option<Timestamp>,
    pub scheduled_at: Option<Timestamp>,
    pub scheduled_start_at: Option<Timestamp>,
    pub scheduled_end_at: Option<Timestamp>,
    pub deadline_at: Option<Timestamp>,
    pub reminder_at: Option<Timestamp>,
    pub recurrence_rule: Option<RecurrenceRule>,
    pub recurrence_anchor_at: Option<Timestamp>,
    pub recurrence_timezone: Option<String>,
    pub calendar_block_id: Option<String>,
    pub started_at: Option<Timestamp>,
    pub completed_at: Option<Timestamp>,
    pub estimated_minutes: Option<i32>,
    pub time_limit_minutes: Option<i32>,
    pub pinned: bool,
    pub blocked_reason: Option<String>,
    pub tags: Vec<String>,
    pub created_at: Timestamp,
    pub updated_at: Timestamp,
}

/// A task with the project and organization facts that scoring and the board read.
#[derive(Clone, Debug)]
pub struct TaskContext {
    pub task: Task,
    pub project_name: String,
    pub project_type: ProjectType,
    pub project_status: ProjectStatus,
    pub project_priority: i32,
    pub organization_name: String,
    pub organization_color: Option<String>,
}

/// A task with its urgency score.
#[derive(Clone, Debug)]
pub struct ScoredTask {
    pub context: TaskContext,
    pub urgency_score: i32,
}

/// The seven columns of the operations board.
#[derive(Clone, Debug)]
pub struct BoardState {
    pub generated_at: Timestamp,
    pub now: Vec<ScoredTask>,
    pub next_up: Vec<ScoredTask>,
    pub due_soon: Vec<ScoredTask>,
    pub waiting_blocked: Vec<ScoredTask>,
    pub later_today: Vec<ScoredTask>,
    pub overdue: Vec<ScoredTask>,
    pub done_today: Vec<ScoredTask>,
}

/// A scheduled block of time on the calendar.
#[derive(Clone, Debug)]
pub struct CalendarBlock {
    pub id: String,
    pub task_id: Option<String>,
    pub project_id: Option<String>,
    pub organization_id: Option<String>,
    pub title: String,
    pub description: Option<String>,
    pub start_at: Timestamp,
    pub end_at: Timestamp,
    pub timezone: Option<String>,
    pub source: CalendarBlockSource,
    pub external_id: Option<String>,
    pub status: CalendarBlockStatus,
    pub created_at: Timestamp,
    pub updated_at: Timestamp,
}

/// The running or paused timer of a task.
#[derive(Clone, Debug)]
pub struct ActiveTimerInfo {
    pub session_id: String,
    pub started_at: Timestamp,
    pub paused_at: Option<Timestamp>,
    pub resumed_at: Option<Timestamp>,
    pub elapsed_seconds: i64,
    pub is_running: bool,
}

/// A task with its project, organization, urgency score and timer.
#[derive(Clone, Debug)]
pub struct TaskWithContext {
    pub task: Task,
    pub project_id: String,
    pub project_name: String,
    pub project_type: ProjectType,
    pub organization_id: String,
    pub organization_name: String,
    pub organization_color: Option<String>,
    pub organization_icon: Option<String>,
    pub urgency_score: i32,
    pub active_timer: Option<ActiveTimerInfo>,
}

/// Ordering of a task listing.
#[derive(Clone, Copy, Debug)]
pub struct TaskSort {
    pub field: TaskSortField,
    pub descending: bool,
}

impl Default for TaskSort {
    fn default() -> (r: Self)
        ensures
            r.field == TaskSortField::Urgency,
            r.descending,
    {
        TaskSort { field: TaskSortField::Urgency, descending: true }
    }
}

/// Input for creating an organization.
#[derive(Clone, Debug)]
pub struct NewOrganization {
    pub name: String,
    pub slug: Option<String>,
    pub description: Option<String>,
    pub color: Option<String>,
    pub icon: Option<String>,
}

/// Changes to an organization; `None` leaves a field as it is.
#[derive(Clone, Debug)]
pub struct OrganizationPatch {
    pub name: Option<String>,
    pub slug: Option<String>,
    pub description: Option<Option<String>>,
    pub color: Option<Option<String>>,
    pub icon: Option<Option<String>>,
}

impl Default for OrganizationPatch {
    fn default() -> (p: Self)
        ensures
            p.name is None && p.slug is None && p.description is None && p.color is None && p.icon is None,
    {
        OrganizationPatch { name: None, slug: None, description: None, color: None, icon: None }
    }
}

/// Input for creating a project.
#[derive(Clone, Debug)]
pub struct NewProject {
    pub organization_id: String,
    pub name: String,
    pub slug: Option<String>,
    pub description: Option<String>,
    pub project_type: ProjectType,
    pub status: ProjectStatus,
    pub priority: i32,
    pub deadline: Option<Timestamp>,
    pub repo_url: Option<String>,
    pub notes: Option<String>,
}

/// Changes to a project; `None` leaves a field as it is.
#[derive(Clone, Debug)]
pub struct ProjectPatch {
    pub name: Option<String>,
    pub slug: Option<String>,
    pub description: Option<Option<String>>,
    pub project_type: Option<ProjectType>,
    pub status: Option<ProjectStatus>,
    pub priority: Option<i32>,
    pub deadline: Option<Option<Timestamp>>,
    pub repo_url: Option<Option<String>>,
    pub notes: Option<Option<String>>,
}

impl Default for ProjectPatch {
    fn default() -> (p: Self)
        ensures
            p.name is None && p.slug is None && p.description is None && p.project_type is None
                && p.status is None && p.priority is None && p.deadline is None && p.repo_url is None
                && p.notes is None,
    {
        ProjectPatch {
            name: None,
            slug: None,
            description: None,
            project_type: None,
            status: None,
            priority: None,
            deadline: None,
            repo_url: None,
            notes: None,
        }
    }
}

/// Input for creating a task.
#[derive(Clone, Debug)]
pub struct NewTask {
    pub project_id: String,
    pub title: String,
    pub description: Option<String>,
    pub status: TaskStatus,
    pub priority: i32,
    pub due_at: Option<Timestamp>,
    pub scheduled_at: Option<Timestamp>,
    pub estimated_minutes: Option<i32>,
    pub time_limit_minutes: Option<i32>,
    pub pinned: bool,
    pub tags: Vec<String>,
}

/// Changes to a task; `None` leaves a field as it is.
#[derive(Clone, Debug)]
pub struct TaskPatch {
    pub title: Option<String>,
    pub description: Option<Option<String>>,
    pub status: Option<TaskStatus>,
    pub priority: Option<i32>,
    pub due_at: Option<Option<Timestamp>>,
    pub scheduled_at: Option<Option<Timestamp>>,
    pub estimated_minutes: Option<Option<i32>>,
    pub time_limit_minutes: Option<Option<i32>>,
    pub pinned: Option<bool>,
    pub blocked_reason: Option<Option<String>>,
    pub tags: Option<Vec<String>>,
}

impl Default for TaskPatch {
    fn default() -> (p: Self)
        ensures
            p.title is None && p.description is None && p.status is None && p.priority is None
                && p.due_at is None && p.scheduled_at is None && p.estimated_minutes is None
                && p.time_limit_minutes is None && p.pinned is None && p.blocked_reason is None
                && p.tags is None,
    {
        TaskPatch {
            title: None,
            description: None,
            status: None,
            priority: None,
            due_at: None,
            scheduled_at: None,
            estimated_minutes: None,
            time_limit_minutes: None,
            pinned: None,
            blocked_reason: None,
            tags: None,
        }
    }
}

/// Changes to the stored scoring settings; `None` leaves a weight as it is.
#[derive(Clone, Copy, Debug)]
pub struct ScoringSettingsPatch {
    pub priority_weight: Option<i32>,
    pub pinned_boost: Option<i32>,
    pub overdue_boost: Option<i32>,
    pub due_soon_boost: Option<i32>,
    pub in_progress_boost: Option<i32>,
    pub blocked_penalty: Option<i32>,
    pub waiting_penalty: Option<i32>,
    pub paused_project_penalty: Option<i32>,
    pub due_soon_window_hours: Option<i32>,
}

/// One message of a local AI chat prompt.
#[derive(Clone, Debug)]
pub struct LocalAiChatMessage {
    pub role: String,
    pub content: String,
}

/// The answer of a local chat model.
#[derive(Clone, Debug)]
pub struct LocalAiChatResponse {
    pub model: String,
    pub content: String,
    pub total_duration: Option<i64>,
    pub load_duration: Option<i64>,
    pub prompt_eval_count: Option<i64>,
    pub eval_count: Option<i64>,
}

/// Outcome of probing the local model server.
#[derive(Clone, Debug)]
pub struct LocalAiConnectionResult {
    pub connected: bool,
    pub version: Option<String>,
    pub error: Option<String>,
}

/// A tool the local assistant may call; `input_schema` is its argument shape as compact JSON text.
#[derive(Clone, Debug)]
pub struct LocalAiToolDefinition {
    pub name: String,
    pub description: String,
    pub write: bool,
    pub destructive: bool,
    pub input_schema: String,
    pub examples: Vec<String>,
    pub aliases: Vec<String>,
}

/// A user turn sent to the local assistant.
#[derive(Clone, Debug)]
pub struct SendLocalAiChatMessageInput {
    pub session_id: Option<String>,
    pub message: String,
    pub model: Option<String>,
    pub context_scope: Option<LocalAiContextScope>,
    pub allow_write_proposals: bool,
}

/// A stored message of a local assistant session.
#[derive(Clone, Debug)]
pub struct LocalAiChatMessageRecord {
    pub id: String,
    pub session_id: String,
    pub role: LocalAiChatRole,
    pub content: String,
    pub model: Option<String>,
    pub created_at: Timestamp,
}

/// The result of a local AI workflow such as a day plan.
#[derive(Clone, Debug)]
pub struct LocalAiWorkflowResponse {
    pub content: String,
    pub model: Option<String>,
    pub fallback_used: bool,
    pub fallback_task: Option<TaskWithContext>,
    pub error: Option<String>,
}

/// A model the local model server has installed; `details` is the server's own description.
#[derive(Debug)]
pub struct LocalAiModel {
    pub name: String,
    pub display_name: Option<String>,
    pub size: Option<i64>,
    pub modified_at: Option<Timestamp>,
    pub digest: Option<String>,
    pub family: Option<String>,
    pub details: Option<crate::json::Json>,
    pub installed: bool,
}

/// The outcome of listing the local models.
#[derive(Debug)]
pub struct LocalAiModelListResult {
    pub connected: bool,
    pub models: Vec<LocalAiModel>,
    pub error: Option<String>,
}

/// A copy of an optional string.
pub fn dup_opt_string(o: &Option<String>) -> (r: Option<String>)
    ensures
        r == *o,
{
    match o {
        Some(s) => Some(s.clone()),
        None => None,
    }
}

/// A copy of a list of strings.
pub fn dup_strings(v: &Vec<String>) -> (r: Vec<String>)
    ensures
        r@ == v@,
{
    let mut out: Vec<String> = Vec::new();
    let mut i: usize = 0;
    while i < v.len()
        invariant
            i <= v@.len(),
            out@ == v@.subrange(0, i as int),
        decreases v@.len() - i,
    {
        out.push(v[i].clone());
        proof {
            assert(out@ =~= v@.subrange(0, i as int + 1));
        }
        i = i + 1;
    }
    proof {
        assert(v@.subrange(0, v@.len() as int) =~= v@);
    }
    out
}

/// Whether two tasks hold the same values (their tag lists equal as sequences).
pub open spec fn same_task(a: Task, b: Task) -> bool {
    &&& a.id == b.id
    &&& a.project_id == b.project_id
    &&& a.title == b.title
    &&& a.description == b.description
    &&& a.status == b.status
    &&& a.priority == b.priority
    &&& a.due_at == b.due_at
    &&& a.scheduled_at == b.scheduled_at
    &&& a.scheduled_start_at == b.scheduled_start_at
    &&& a.scheduled_end_at == b.scheduled_end_at
    &&& a.deadline_at == b.deadline_at
    &&& a.reminder_at == b.reminder_at
    &&& a.recurrence_rule == b.recurrence_rule
    &&& a.recurrence_anchor_at == b.recurrence_anchor_at
    &&& a.recurrence_timezone == b.recurrence_timezone
    &&& a.calendar_block_id == b.calendar_block_id
    &&& a.started_at == b.started_at
    &&& a.completed_at == b.completed_at
    &&& a.estimated_minutes == b.estimated_minutes
    &&& a.time_limit_minutes == b.time_limit_minutes
    &&& a.pinned == b.pinned
    &&& a.blocked_reason == b.blocked_reason
    &&& a.tags@ == b.tags@
    &&& a.created_at == b.created_at
    &&& a.updated_at == b.updated_at
}

/// Whether two tasks with context hold the same values.
pub open spec fn same_context(a: TaskContext, b: TaskContext) -> bool {
    &&& same_task(a.task, b.task)
    &&& a.project_name == b.project_name
    &&& a.project_type == b.project_type
    &&& a.project_status == b.project_status
    &&& a.project_priority == b.project_priority
    &&& a.organization_name == b.organization_name
    &&& a.organization_color == b.organization_color
}

/// Whether two scored tasks hold the same values.
pub open spec fn same_scored(a: ScoredTask, b: ScoredTask) -> bool {
    same_context(a.context, b.context) && a.urgency_score == b.urgency_score
}

/// Whether two listed tasks hold the same values.
pub open spec fn same_listed(a: TaskWithContext, b: TaskWithContext) -> bool {
    &&& same_task(a.task, b.task)
    &&& a.project_id == b.project_id
    &&& a.project_name == b.project_name
    &&& a.project_type == b.project_type
    &&& a.organization_id == b.organization_id
    &&& a.organization_name == b.organization_name
    &&& a.organization_color == b.organization_color
    &&& a.organization_icon == b.organization_icon
    &&& a.urgency_score == b.urgency_score
    &&& a.active_timer == b.active_timer
}

impl Task {
    /// A copy of the task.
    pub fn duplicate(&self) -> (r: Self)
        ensures
            same_task(r, *self),
    {
        Task {
            id: self.id.clone(),
            project_id: self.project_id.clone(),
            title: self.title.clone(),
            description: dup_opt_string(&self.description),
            status: self.status,
            priority: self.priority,
            due_at: self.due_at,
            scheduled_at: self.scheduled_at,
            scheduled_start_at: self.scheduled_start_at,
            scheduled_end_at: self.scheduled_end_at,
            deadline_at: self.deadline_at,
            reminder_at: self.reminder_at,
            recurrence_rule: self.recurrence_rule,
            recurrence_anchor_at: self.recurrence_anchor_at,
            recurrence_timezone: dup_opt_string(&self.recurrence_timezone),
            calendar_block_id: dup_opt_string(&self.calendar_block_id),
            started_at: self.started_at,
            completed_at: self.completed_at,
            estimated_minutes: self.estimated_minutes,
            time_limit_minutes: self.time_limit_minutes,
            pinned: self.pinned,
            blocked_reason: dup_opt_string(&self.blocked_reason),
            tags: dup_strings(&self.tags),
            created_at: self.created_at,
            updated_at: self.updated_at,
        }
    }
}

impl TaskContext {
    /// A copy of the task and its context.
    pub fn duplicate(&self) -> (r: Self)
        ensures
            same_context(r, *self),
    {
        TaskContext {
            task: self.task.duplicate(),
            project_name: self.project_name.clone(),
            project_type: self.project_type,
            project_status: self.project_status,
            project_priority: self.project_priority,
            organization_name: self.organization_name.clone(),
            organization_color: dup_opt_string(&self.organization_color),
        }
    }
}

impl ScoredTask {
    /// A copy of the scored task.
    pub fn duplicate(&self) -> (r: Self)
        ensures
            same_scored(r, *self),
    {
        ScoredTask { context: self.context.duplicate(), urgency_score: self.urgency_score }
    }
}

impl TaskWithContext {
    /// A copy of the task and its context.
    pub fn duplicate(&self) -> (r: Self)
        ensures
            same_listed(r, *self),
    {
        TaskWithContext {
            task: self.task.duplicate(),
            project_id: self.project_id.clone(),
            project_name: self.project_name.clone(),
            project_type: self.project_type,
            organization_id: self.organization_id.clone(),
            organization_name: self.organization_name.clone(),
            organization_color: dup_opt_string(&self.organization_color),
            organization_icon: dup_opt_string(&self.organization_icon),
            urgency_score: self.urgency_score,
            active_timer: match &self.active_timer {
                Some(a) => Some(
                    ActiveTimerInfo {
                        session_id: a.session_id.clone(),
                        started_at: a.started_at,
                        paused_at: a.paused_at,
                        resumed_at: a.resumed_at,
                        elapsed_seconds: a.elapsed_seconds,
                        is_running: a.is_running,
                    },
                ),
                None => None,
            },
        }
    }
}

impl ProjectType {
    /// Law: reading back the text form of a value gives the value.
    pub proof fn lemma_text_round_trip(self)
        ensures
            ProjectType::from_text(self.text()) == Some(self),
    {
        match self {
            ProjectType::Software => {
                reveal_strlit("software");
            },
            ProjectType::Writing => {
                reveal_strlit("writing");
                reveal_strlit("software");
                assert("writing"@.len() != "software"@.len());
            },
            ProjectType::Business => {
                reveal_strlit("business");
                reveal_strlit("software");
                assert("business"@[0] != "software"@[0]);
                reveal_strlit("writing");
                assert("business"@.len() != "writing"@.len());
            },
            ProjectType::FilmStory => {
                reveal_strlit("film_story");
                reveal_strlit("software");
                assert("film_story"@.len() != "software"@.len());
                reveal_strlit("writing");
                assert("film_story"@.len() != "writing"@.len());
                reveal_strlit("business");
                assert("film_story"@.len() != "business"@.len());
            },
            ProjectType::MarketingPr => {
                reveal_strlit("marketing_pr");
                reveal_strlit("software");
                assert("marketing_pr"@.len() != "software"@.len());
                reveal_strlit("writing");
                assert("marketing_pr"@.len() != "writing"@.len());
                reveal_strlit("business");
                assert("marketing_pr"@.len() != "business"@.len());
                reveal_strlit("film_story");
                assert("marketing_pr"@.len() != "film_story"@.len());
            },
            ProjectType::Research => {
                reveal_strlit("research");
                reveal_strlit("software");
                assert("research"@[0] != "software"@[0]);
                reveal_strlit("writing");
                assert("research"@.len() != "writing"@.len());
                reveal_strlit("business");
                assert("research"@[0] != "business"@[0]);
                reveal_strlit("film_story");
                assert("research"@.len() != "film_story"@.len());
                reveal_strlit("marketing_pr");
                assert("research"@.len() != "marketing_pr"@.len());
            },
            ProjectType::Operations => {
                reveal_strlit("operations");
                reveal_strlit("software");
                assert("operations"@.len() != "software"@.len());
                reveal_strlit("writing");
                assert("operations"@.len() != "writing"@.len());
                reveal_strlit("business");
                assert("operations"@.len() != "business"@.len());
                reveal_strlit("film_story");
                assert("operations"@[0] != "film_story"@[0]);
                reveal_strlit("marketing_pr");
                assert("operations"@.len() != "marketing_pr"@.len());
                reveal_strlit("research");
                assert("operations"@.len() != "research"@.len());
            },
            ProjectType::Personal => {
                reveal_strlit("personal");
                reveal_strlit("software");
                assert("personal"@[0] != "software"@[0]);
                reveal_strlit("writing");
                assert("personal"@.len() != "writing"@.len());
                reveal_strlit("business");
                assert("personal"@[0] != "business"@[0]);
                reveal_strlit("film_story");
                assert("personal"@.len() != "film_story"@.len());
                reveal_strlit("marketing_pr");
                assert("personal"@.len() != "marketing_pr"@.len());
                reveal_strlit("research");
                assert("personal"@[0] != "research"@[0]);
                reveal_strlit("operations");
                assert("personal"@.len() != "operations"@.len());
            },
            ProjectType::Other => {
                reveal_strlit("other");
                reveal_strlit("software");
                assert("other"@.len() != "software"@.len());
                reveal_strlit("writing");
                assert("other"@.len() != "writing"@.len());
                reveal_strlit("business");
                assert("other"@.len() != "business"@.len());
                reveal_strlit("film_story");
                assert("other"@.len() != "film_story"@.len());
                reveal_strlit("marketing_pr");
                assert("other"@.len() != "marketing_pr"@.len());
                reveal_strlit("research");
                assert("other"@.len() != "research"@.len());
                reveal_strlit("operations");
                assert("other"@.len() != "operations"@.len());
                reveal_strlit("personal");
                assert("other"@.len() != "personal"@.len());
            },
        }
    }
}

impl ProjectStatus {
    /// Law: reading back the text form of a value gives the value.
    pub proof fn lemma_text_round_trip(self)
        ensures
            ProjectStatus::from_text(self.text()) == Some(self),
    {
        match self {
            ProjectStatus::Active => {
                reveal_strlit("active");
            },
            ProjectStatus::Paused => {
                reveal_strlit("paused");
                reveal_strlit("active");
                assert("paused"@[0] != "active"@[0]);
            },
            ProjectStatus::Completed => {
                reveal_strlit("completed");
                reveal_strlit("active");
                assert("completed"@.len() != "active"@.len());
                reveal_strlit("paused");
                assert("completed"@.len() != "paused"@.len());
            },
            ProjectStatus::Archived => {
                reveal_strlit("archived");
                reveal_strlit("active");
                assert("archived"@.len() != "active"@.len());
                reveal_strlit("paused");
                assert("archived"@.len() != "paused"@.len());
                reveal_strlit("completed");
                assert("archived"@.len() != "completed"@.len());
            },
        }
    }
}

impl TaskStatus {
    /// Law: reading back the text form of a value gives the value.
    pub proof fn lemma_text_round_trip(self)
        ensures
            TaskStatus::from_text(self.text()) == Some(self),
    {
        match self {
            TaskStatus::Inbox => {
                reveal_strlit("inbox");
            },
            TaskStatus::Backlog => {
                reveal_strlit("backlog");
                reveal_strlit("inbox");
                assert("backlog"@.len() != "inbox"@.len());
            },
            TaskStatus::Scheduled => {
                reveal_strlit("scheduled");
                reveal_strlit("inbox");
                assert("scheduled"@.len() != "inbox"@.len());
                reveal_strlit("backlog");
                assert("scheduled"@.len() != "backlog"@.len());
            },
            TaskStatus::Ready => {
                reveal_strlit("ready");
                reveal_strlit("inbox");
                assert("ready"@[0] != "inbox"@[0]);
                reveal_strlit("backlog");
                assert("ready"@.len() != "backlog"@.len());
                reveal_strlit("scheduled");
                assert("ready"@.len() != "scheduled"@.len());
            },
            TaskStatus::InProgress => {
                reveal_strlit("in_progress");
                reveal_strlit("inbox");
                assert("in_progress"@.len() != "inbox"@.len());
                reveal_strlit("backlog");
                assert("in_progress"@.len() != "backlog"@.len());
                reveal_strlit("scheduled");
                assert("in_progress"@.len() != "scheduled"@.len());
                reveal_strlit("ready");
                assert("in_progress"@.len() != "ready"@.len());
            },
            TaskStatus::Blocked => {
                reveal_strlit("blocked");
                reveal_strlit("inbox");
                assert("blocked"@.len() != "inbox"@.len());
                reveal_strlit("backlog");
                assert("blocked"@[1] != "backlog"@[1]);
                reveal_strlit("scheduled");
                assert("blocked"@.len() != "scheduled"@.len());
                reveal_strlit("ready");
                assert("blocked"@.len() != "ready"@.len());
                reveal_strlit("in_progress");
                assert("blocked"@.len() != "in_progress"@.len());
            },
            TaskStatus::Waiting => {
                reveal_strlit("waiting");
                reveal_strlit("inbox");
                assert("waiting"@.len() != "inbox"@.len());
                reveal_strlit("backlog");
                assert("waiting"@[0] != "backlog"@[0]);
                reveal_strlit("scheduled");
                assert("waiting"@.len() != "scheduled"@.len());
                reveal_strlit("ready");
                assert("waiting"@.len() != "ready"@.len());
                reveal_strlit("in_progress");
                assert("waiting"@.len() != "in_progress"@.len());
                reveal_strlit("blocked");
                assert("waiting"@[0] != "blocked"@[0]);
            },
            TaskStatus::Done => {
                reveal_strlit("done");
                reveal_strlit("inbox");
                assert("done"@.len() != "inbox"@.len());
                reveal_strlit("backlog");
                assert("done"@.len() != "backlog"@.len());
                reveal_strlit("scheduled");
                assert("done"@.len() != "scheduled"@.len());
                reveal_strlit("ready");
                assert("done"@.len() != "ready"@.len());
                reveal_strlit("in_progress");
                assert("done"@.len() != "in_progress"@.len());
                reveal_strlit("blocked");
                assert("done"@.len() != "blocked"@.len());
                reveal_strlit("waiting");
                assert("done"@.len() != "waiting"@.len());
            },
            TaskStatus::Canceled => {
                reveal_strlit("canceled");
                reveal_strlit("inbox");
                assert("canceled"@.len() != "inbox"@.len());
                reveal_strlit("backlog");
                assert("canceled"@.len() != "backlog"@.len());
                reveal_strlit("scheduled");
                assert("canceled"@.len() != "scheduled"@.len());
                reveal_strlit("ready");
                assert("canceled"@.len() != "ready"@.len());
                reveal_strlit("in_progress");
                assert("canceled"@.len() != "in_progress"@.len());
                reveal_strlit("blocked");
                assert("canceled"@.len() != "blocked"@.len());
                reveal_strlit("waiting");
                assert("canceled"@.len() != "waiting"@.len());
                reveal_strlit("done");
                assert("canceled"@.len() != "done"@.len());
            },
        }
    }
}

impl TaskSortField {
    /// Law: reading back the text form of a value gives the value.
    pub proof fn lemma_text_round_trip(self)
        ensures
            TaskSortField::from_text(self.text()) == Some(self),
    {
        match self {
            TaskSortField::Urgency => {
                reveal_strlit("urgency");
            },
            TaskSortField::Priority => {
                reveal_strlit("priority");
                reveal_strlit("urgency");
                assert("priority"@.len() != "urgency"@.len());
            },
            TaskSortField::DueAt => {
                reveal_strlit("due_at");
                reveal_strlit("urgency");
                assert("due_at"@.len() != "urgency"@.len());
                reveal_strlit("priority");
                assert("due_at"@.len() != "priority"@.len());
            },
            TaskSortField::Status => {
                reveal_strlit("status");
                reveal_strlit("urgency");
                assert("status"@.len() != "urgency"@.len());
                reveal_strlit("priority");
                assert("status"@.len() != "priority"@.len());
                reveal_strlit("due_at");
                assert("status"@[0] != "due_at"@[0]);
            },
            TaskSortField::Project => {
                reveal_strlit("project");
                reveal_strlit("urgency");
                assert("project"@[0] != "urgency"@[0]);
                reveal_strlit("priority");
                assert("project"@.len() != "priority"@.len());
                reveal_strlit("due_at");
                assert("project"@.len() != "due_at"@.len());
                reveal_strlit("status");
                assert("project"@.len() != "status"@.len());
            },
            TaskSortField::Organization => {
                reveal_strlit("organization");
                reveal_strlit("urgency");
                assert("organization"@.len() != "urgency"@.len());
                reveal_strlit("priority");
                assert("organization"@.len() != "priority"@.len());
                reveal_strlit("due_at");
                assert("organization"@.len() != "due_at"@.len());
                reveal_strlit("status");
                assert("organization"@.len() != "status"@.len());
                reveal_strlit("project");
                assert("organization"@.len() != "project"@.len());
            },
            TaskSortField::CreatedAt => {
                reveal_strlit("created_at");
                reveal_strlit("urgency");
                assert("created_at"@.len() != "urgency"@.len());
                reveal_strlit("priority");
                assert("created_at"@.len() != "priority"@.len());
                reveal_strlit("due_at");
                assert("created_at"@.len() != "due_at"@.len());
                reveal_strlit("status");
                assert("created_at"@.len() != "status"@.len());
                reveal_strlit("project");
                assert("created_at"@.len() != "project"@.len());
                reveal_strlit("organization");
                assert("created_at"@.len() != "organization"@.len());
            },
            TaskSortField::UpdatedAt => {
                reveal_strlit("updated_at");
                reveal_strlit("urgency");
                assert("updated_at"@.len() != "urgency"@.len());
                reveal_strlit("priority");
                assert("updated_at"@.len() != "priority"@.len());
                reveal_strlit("due_at");
                assert("updated_at"@.len() != "due_at"@.len());
                reveal_strlit("status");
                assert("updated_at"@.len() != "status"@.len());
                reveal_strlit("project");
                assert("updated_at"@.len() != "project"@.len());
                reveal_strlit("organization");
                assert("updated_at"@.len() != "organization"@.len());
                reveal_strlit("created_at");
                assert("updated_at"@[0] != "created_at"@[0]);
            },
            TaskSortField::Tag => {
                reveal_strlit("tag");
                reveal_strlit("urgency");
                assert("tag"@.len() != "urgency"@.len());
                reveal_strlit("priority");
                assert("tag"@.len() != "priority"@.len());
                reveal_strlit("due_at");
                assert("tag"@.len() != "due_at"@.len());
                reveal_strlit("status");
                assert("tag"@.len() != "status"@.len());
                reveal_strlit("project");
                assert("tag"@.len() != "project"@.len());
                reveal_strlit("organization");
                assert("tag"@.len() != "organization"@.len());
                reveal_strlit("created_at");
                assert("tag"@.len() != "created_at"@.len());
                reveal_strlit("updated_at");
                assert("tag"@.len() != "updated_at"@.len());
            },
        }
    }
}

impl RecurrenceRule {
    /// Law: reading back the text form of a value gives the value.
    pub proof fn lemma_text_round_trip(self)
        ensures
            RecurrenceRule::from_text(self.text()) == Some(self),
    {
        match self {
            RecurrenceRule::NoRecurrence => {
                reveal_strlit("none");
            },
            RecurrenceRule::Daily => {
                reveal_strlit("daily");
                reveal_strlit("none");
                assert("daily"@.len() != "none"@.len());
            },
            RecurrenceRule::Weekdays => {
                reveal_strlit("weekdays");
                reveal_strlit("none");
                assert("weekdays"@.len() != "none"@.len());
                reveal_strlit("daily");
                assert("weekdays"@.len() != "daily"@.len());
            },
            RecurrenceRule::Weekly => {
                reveal_strlit("weekly");
                reveal_strlit("none");
                assert("weekly"@.len() != "none"@.len());
                reveal_strlit("daily");
                assert("weekly"@.len() != "daily"@.len());
                reveal_strlit("weekdays");
                assert("weekly"@.len() != "weekdays"@.len());
            },
            RecurrenceRule::Monthly => {
                reveal_strlit("monthly");
                reveal_strlit("none");
                assert("monthly"@.len() != "none"@.len());
                reveal_strlit("daily");
                assert("monthly"@.len() != "daily"@.len());
                reveal_strlit("weekdays");
                assert("monthly"@.len() != "weekdays"@.len());
                reveal_strlit("weekly");
                assert("monthly"@.len() != "weekly"@.len());
            },
        }
    }
}

impl CalendarBlockSource {
    /// Law: reading back the text form of a value gives the value.
    pub proof fn lemma_text_round_trip(self)
        ensures
            CalendarBlockSource::from_text(self.text()) == Some(self),
    {
        match self {
            CalendarBlockSource::OpenMgmt => {
                reveal_strlit("openmgmt");
            },
            CalendarBlockSource::ImportedIcs => {
                reveal_strlit("imported_ics");
                reveal_strlit("openmgmt");
                assert("imported_ics"@.len() != "openmgmt"@.len());
            },
            CalendarBlockSource::GoogleCalendarFuture => {
                reveal_strlit("google_calendar_future");
                reveal_strlit("openmgmt");
                assert("google_calendar_future"@.len() != "openmgmt"@.len());
                reveal_strlit("imported_ics");
                assert("google_calendar_future"@.len() != "imported_ics"@.len());
            },
            CalendarBlockSource::OutlookFuture => {
                reveal_strlit("outlook_future");
                reveal_strlit("openmgmt");
                assert("outlook_future"@.len() != "openmgmt"@.len());
                reveal_strlit("imported_ics");
                assert("outlook_future"@.len() != "imported_ics"@.len());
                reveal_strlit("google_calendar_future");
                assert("outlook_future"@.len() != "google_calendar_future"@.len());
            },
        }
    }
}

impl CalendarBlockStatus {
    /// Law: reading back the text form of a value gives the value.
    pub proof fn lemma_text_round_trip(self)
        ensures
            CalendarBlockStatus::from_text(self.text()) == Some(self),
    {
        match self {
            CalendarBlockStatus::Planned => {
                reveal_strlit("planned");
            },
            CalendarBlockStatus::Completed => {
                reveal_strlit("completed");
                reveal_strlit("planned");
                assert("completed"@.len() != "planned"@.len());
            },
            CalendarBlockStatus::Skipped => {
                reveal_strlit("skipped");
                reveal_strlit("planned");
                assert("skipped"@[0] != "planned"@[0]);
                reveal_strlit("completed");
                assert("skipped"@.len() != "completed"@.len());
            },
            CalendarBlockStatus::Moved => {
                reveal_strlit("moved");
                reveal_strlit("planned");
                assert("moved"@.len() != "planned"@.len());
                reveal_strlit("completed");
                assert("moved"@.len() != "completed"@.len());
                reveal_strlit("skipped");
                assert("moved"@.len() != "skipped"@.len());
            },
            CalendarBlockStatus::Canceled => {
                reveal_strlit("canceled");
                reveal_strlit("planned");
                assert("canceled"@.len() != "planned"@.len());
                reveal_strlit("completed");
                assert("canceled"@.len() != "completed"@.len());
                reveal_strlit("skipped");
                assert("canceled"@.len() != "skipped"@.len());
                reveal_strlit("moved");
                assert("canceled"@.len() != "moved"@.len());
            },
            CalendarBlockStatus::OnHold => {
                reveal_strlit("on_hold");
                reveal_strlit("planned");
                assert("on_hold"@[0] != "planned"@[0]);
                reveal_strlit("completed");
                assert("on_hold"@.len() != "completed"@.len());
                reveal_strlit("skipped");
                assert("on_hold"@[0] != "skipped"@[0]);
                reveal_strlit("moved");
                assert("on_hold"@.len() != "moved"@.len());
                reveal_strlit("canceled");
                assert("on_hold"@.len() != "canceled"@.len());
            },
        }
    }
}

impl LocalAiChatRole {
    /// Law: reading back the text form of a value gives the value.
    pub proof fn lemma_text_round_trip(self)
        ensures
            LocalAiChatRole::from_text(self.text()) == Some(self),
    {
        match self {
            LocalAiChatRole::User => {
                reveal_strlit("user");
            },
            LocalAiChatRole::Assistant => {
                reveal_strlit("assistant");
                reveal_strlit("user");
                assert("assistant"@.len() != "user"@.len());
            },
            LocalAiChatRole::System => {
                reveal_strlit("system");
                reveal_strlit("user");
                assert("system"@.len() != "user"@.len());
                reveal_strlit("assistant");
                assert("system"@.len() != "assistant"@.len());
            },
            LocalAiChatRole::Tool => {
                reveal_strlit("tool");
                reveal_strlit("user");
                assert("tool"@[0] != "user"@[0]);
                reveal_strlit("assistant");
                assert("tool"@.len() != "assistant"@.len());
                reveal_strlit("system");
                assert("tool"@.len() != "system"@.len());
            },
        }
    }
}

impl LocalAiToolCallStatus {
    /// Law: reading back the text form of a value gives the value.
    pub proof fn lemma_text_round_trip(self)
        ensures
            LocalAiToolCallStatus::from_text(self.text()) == Some(self),
    {
        match self {
            LocalAiToolCallStatus::Proposed => {
                reveal_strlit("proposed");
            },
            LocalAiToolCallStatus::Confirmed => {
                reveal_strlit("confirmed");
                reveal_strlit("proposed");
                assert("confirmed"@.len() != "proposed"@.len());
            },
            LocalAiToolCallStatus::Executed => {
                reveal_strlit("executed");
                reveal_strlit("proposed");
                assert("executed"@[0] != "proposed"@[0]);
                reveal_strlit("confirmed");
                assert("executed"@.len() != "confirmed"@.len());
            },
            LocalAiToolCallStatus::Failed => {
                reveal_strlit("failed");
                reveal_strlit("proposed");
                assert("failed"@.len() != "proposed"@.len());
                reveal_strlit("confirmed");
                assert("failed"@.len() != "confirmed"@.len());
                reveal_strlit("executed");
                assert("failed"@.len() != "executed"@.len());
            },
            LocalAiToolCallStatus::Canceled => {
                reveal_strlit("canceled");
                reveal_strlit("proposed");
                assert("canceled"@[0] != "proposed"@[0]);
                reveal_strlit("confirmed");
                assert("canceled"@.len() != "confirmed"@.len());
                reveal_strlit("executed");
                assert("canceled"@[0] != "executed"@[0]);
                reveal_strlit("failed");
                assert("canceled"@.len() != "failed"@.len());
            },
        }
    }
}

impl LocalAiContextScope {
    /// Law: reading back the text form of a value gives the value.
    pub proof fn lemma_text_round_trip(self)
        ensures
            LocalAiContextScope::from_text(self.text()) == Some(self),
    {
        match self {
            LocalAiContextScope::Minimal => {
                reveal_strlit("minimal");
            },
            LocalAiContextScope::Daily => {
                reveal_strlit("daily");
                reveal_strlit("minimal");
                assert("daily"@.len() != "minimal"@.len());
            },
            LocalAiContextScope::Project => {
                reveal_strlit("project");
                reveal_strlit("minimal");
                assert("project"@[0] != "minimal"@[0]);
                reveal_strlit("daily");
                assert("project"@.len() != "daily"@.len());
            },
            LocalAiContextScope::Task => {
                reveal_strlit("task");
                reveal_strlit("minimal");
                assert("task"@.len() != "minimal"@.len());
                reveal_strlit("daily");
                assert("task"@.len() != "daily"@.len());
                reveal_strlit("project");
                assert("task"@.len() != "project"@.len());
            },
            LocalAiContextScope::Schedule => {
                reveal_strlit("schedule");
                reveal_strlit("minimal");
                assert("schedule"@.len() != "minimal"@.len());
                reveal_strlit("daily");
                assert("schedule"@.len() != "daily"@.len());
                reveal_strlit("project");
                assert("schedule"@.len() != "project"@.len());
                reveal_strlit("task");
                assert("schedule"@.len() != "task"@.len());
            },
            LocalAiContextScope::FullSummary => {
                reveal_strlit("full_summary");
                reveal_strlit("minimal");
                assert("full_summary"@.len() != "minimal"@.len());
                reveal_strlit("daily");
                assert("full_summary"@.len() != "daily"@.len());
                reveal_strlit("project");
                assert("full_summary"@.len() != "project"@.len());
                reveal_strlit("task");
                assert("full_summary"@.len() != "task"@.len());
                reveal_strlit("schedule");
                assert("full_summary"@.len() != "schedule"@.len());
            },
        }
    }
}

impl LocalAiAccessMode {
    /// Law: reading back the text form of a value gives the value.
    pub proof fn lemma_text_round_trip(self)
        ensures
            LocalAiAccessMode::from_text(self.text()) == Some(self),
    {
        match self {
            LocalAiAccessMode::ReadOnly => {
                reveal_strlit("read_only");
            },
            LocalAiAccessMode::AskBeforeWrite => {
                reveal_strlit("ask_before_write");
                reveal_strlit("read_only");
                assert("ask_before_write"@.len() != "read_only"@.len());
            },
            LocalAiAccessMode::FullAccess => {
                reveal_strlit("full_access");
                reveal_strlit("read_only");
                assert("full_access"@.len() != "read_only"@.len());
                reveal_strlit("ask_before_write");
                assert("full_access"@.len() != "ask_before_write"@.len());
            },
        }
    }
}

impl AiProviderKind {
    /// Law: reading back the text form of a value gives the value.
    pub proof fn lemma_text_round_trip(self)
        ensures
            AiProviderKind::from_text(self.text()) == Some(self),
    {
        match self {
            AiProviderKind::OpenAi => {
                reveal_strlit("openai");
            },
            AiProviderKind::Anthropic => {
                reveal_strlit("anthropic");
                reveal_strlit("openai");
                assert("anthropic"@.len() != "openai"@.len());
            },
            AiProviderKind::LocalOpenAiCompatible => {
                reveal_strlit("local_openai_compatible");
                reveal_strlit("openai");
                assert("local_openai_compatible"@.len() != "openai"@.len());
                reveal_strlit("anthropic");
                assert("local_openai_compatible"@.len() != "anthropic"@.len());
            },
            AiProviderKind::Ollama => {
                reveal_strlit("ollama");
                reveal_strlit("openai");
                assert("ollama"@[1] != "openai"@[1]);
                reveal_strlit("anthropic");
                assert("ollama"@.len() != "anthropic"@.len());
                reveal_strlit("local_openai_compatible");
                assert("ollama"@.len() != "local_openai_compatible"@.len());
            },
            AiProviderKind::LmStudio => {
                reveal_strlit("lm_studio");
                reveal_strlit("openai");
                assert("lm_studio"@.len() != "openai"@.len());
                reveal_strlit("anthropic");
                assert("lm_studio"@[0] != "anthropic"@[0]);
                reveal_strlit("local_openai_compatible");
                assert("lm_studio"@.len() != "local_openai_compatible"@.len());
                reveal_strlit("ollama");
                assert("lm_studio"@.len() != "ollama"@.len());
            },
            AiProviderKind::CustomOpenAiCompatible => {
                reveal_strlit("custom_openai_compatible");
                reveal_strlit("openai");
                assert("custom_openai_compatible"@.len() != "openai"@.len());
                reveal_strlit("anthropic");
                assert("custom_openai_compatible"@.len() != "anthropic"@.len());
                reveal_strlit("local_openai_compatible");
                assert("custom_openai_compatible"@.len() != "local_openai_compatible"@.len());
                reveal_strlit("ollama");
                assert("custom_openai_compatible"@.len() != "ollama"@.len());
                reveal_strlit("lm_studio");
                assert("custom_openai_compatible"@.len() != "lm_studio"@.len());
            },
        }
    }
}

impl AiToolAccess {
    /// Law: reading back the text form of a value gives the value.
    pub proof fn lemma_text_round_trip(self)
        ensures
            AiToolAccess::from_text(self.text()) == Some(self),
    {
        match self {
            AiToolAccess::Read => {
                reveal_strlit("read");
            },
            AiToolAccess::Write => {
                reveal_strlit("write");
                reveal_strlit("read");
                assert("write"@.len() != "read"@.len());
            },
        }
    }
}

impl AiToolPermission {
    /// Law: reading back the text form of a value gives the value.
    pub proof fn lemma_text_round_trip(self)
        ensures
            AiToolPermission::from_text(self.text()) == Some(self),
    {
        match self {
            AiToolPermission::ReadData => {
                reveal_strlit("read_data");
            },
            AiToolPermission::WriteData => {
                reveal_strlit("write_data");
                reveal_strlit("read_data");
                assert("write_data"@.len() != "read_data"@.len());
            },
        }
    }
}

} // verus!
