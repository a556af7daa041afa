//! Sync: event kinds, the conflict policy and its decision on a remote change, the order and
//! tally of a remote batch, and the sync settings and status.
use vstd::prelude::*;
use crate::error::CoreError;
use crate::models::{Organization, Project, ProjectStatus, Task, TaskStatus};
use crate::text::{push_str, starts_with, str_eq, to_string, trim, trim_spec};
use crate::time::Timestamp;

verus! {

/// Kind of entity a sync event is about.
#[derive(Clone, Copy, Debug, PartialEq, Eq, Structural)]
pub enum SyncEntityType {
    Organization,
    Project,
    Task,
}

impl SyncEntityType {
    /// The text form of the value.
    pub open spec fn text(self) -> Seq<char> {
        match self {
            SyncEntityType::Organization => "organization"@,
            SyncEntityType::Project => "project"@,
            SyncEntityType::Task => "task"@,
        }
    }

    /// The value a text form names, if any.
    pub open spec fn from_text(s: Seq<char>) -> Option<SyncEntityType> {
        if s == "organization"@ {
            Some(SyncEntityType::Organization)
        } else if s == "project"@ {
            Some(SyncEntityType::Project)
        } else if s == "task"@ {
            Some(SyncEntityType::Task)
        } else {
            None
        }
    }

    /// The text form of the value.
    pub fn as_str(&self) -> (s: &'static str)
        ensures
            s@ == self.text(),
    {
        match self {
            SyncEntityType::Organization => "organization",
            SyncEntityType::Project => "project",
            SyncEntityType::Task => "task",
        }
    }

    /// Parse the text form of a value; `None` for any other text.
    pub fn parse(value: &str) -> (r: Option<SyncEntityType>)
        ensures
            r == SyncEntityType::from_text(value@),
    {
        if str_eq(value, "organization") {
            Some(SyncEntityType::Organization)
        } else if str_eq(value, "project") {
            Some(SyncEntityType::Project)
        } else if str_eq(value, "task") {
            Some(SyncEntityType::Task)
        } else {
            None
        }
    }
}

impl SyncEntityType {
    /// Reading back the text form of a value gives the value.
    pub proof fn lemma_text_round_trip(self)
        ensures
            SyncEntityType::from_text(self.text()) == Some(self),
    {
        match self {
            SyncEntityType::Organization => {
                reveal_strlit("organization");
            },
            SyncEntityType::Project => {
                reveal_strlit("project");
                reveal_strlit("organization");
                assert("project"@.len() != "organization"@.len());
            },
            SyncEntityType::Task => {
                reveal_strlit("task");
                reveal_strlit("organization");
                assert("task"@.len() != "organization"@.len());
                reveal_strlit("project");
                assert("task"@.len() != "project"@.len());
            },
        }
    }
}

/// What a sync event did to its entity.
#[derive(Clone, Copy, Debug, PartialEq, Eq, Structural)]
pub enum SyncOperation {
    Created,
    Updated,
    Archived,
    Transitioned,
}

impl SyncOperation {
    /// The text form of the value.
    pub open spec fn text(self) -> Seq<char> {
        match self {
            SyncOperation::Created => "created"@,
            SyncOperation::Updated => "updated"@,
            SyncOperation::Archived => "archived"@,
            SyncOperation::Transitioned => "transitioned"@,
        }
    }

    /// The value a text form names, if any.
    pub open spec fn from_text(s: Seq<char>) -> Option<SyncOperation> {
        if s == "created"@ {
            Some(SyncOperation::Created)
        } else if s == "updated"@ {
            Some(SyncOperation::Updated)
        } else if s == "archived"@ {
            Some(SyncOperation::Archived)
        } else if s == "transitioned"@ {
            Some(SyncOperation::Transitioned)
        } else {
            None
        }
    }

    /// The text form of the value.
    pub fn as_str(&self) -> (s: &'static str)
        ensures
            s@ == self.text(),
    {
        match self {
            SyncOperation::Created => "created",
            SyncOperation::Updated => "updated",
            SyncOperation::Archived => "archived",
            SyncOperation::Transitioned => "transitioned",
        }
    }

    /// Parse the text form of a value; `None` for any other text.
    pub fn parse(value: &str) -> (r: Option<SyncOperation>)
        ensures
            r == SyncOperation::from_text(value@),
    {
        if str_eq(value, "created") {
            Some(SyncOperation::Created)
        } else if str_eq(value, "updated") {
            Some(SyncOperation::Updated)
        } else if str_eq(value, "archived") {
            Some(SyncOperation::Archived)
        } else if str_eq(value, "transitioned") {
            Some(SyncOperation::Transitioned)
        } else {
            None
        }
    }
}

impl SyncOperation {
    /// Reading back the text form of a value gives the value.
    pub proof fn lemma_text_round_trip(self)
        ensures
            SyncOperation::from_text(self.text()) == Some(self),
    {
        match self {
            SyncOperation::Created => {
                reveal_strlit("created");
            },
            SyncOperation::Updated => {
                reveal_strlit("updated");
                reveal_strlit("created");
                assert("updated"@[0] != "created"@[0]);
            },
            SyncOperation::Archived => {
                reveal_strlit("archived");
                reveal_strlit("created");
                assert("archived"@.len() != "created"@.len());
                reveal_strlit("updated");
                assert("archived"@.len() != "updated"@.len());
            },
            SyncOperation::Transitioned => {
                reveal_strlit("transitioned");
                reveal_strlit("created");
                assert("transitioned"@.len() != "created"@.len());
                reveal_strlit("updated");
                assert("transitioned"@.len() != "updated"@.len());
                reveal_strlit("archived");
                assert("transitioned"@.len() != "archived"@.len());
            },
        }
    }
}

/// Why a remote change conflicted with local state.
#[derive(Clone, Copy, Debug, PartialEq, Eq, Structural)]
pub enum SyncConflictKind {
    LocalUnsyncedChangeVsRemoteUpdate,
    ArchiveVsUpdate,
    TerminalStatusProtected,
    RestoreRequiresExplicitEvent,
    UnsupportedMergeStrategy,
}

impl SyncConflictKind {
    /// The text form of the value.
    pub open spec fn text(self) -> Seq<char> {
        match self {
            SyncConflictKind::LocalUnsyncedChangeVsRemoteUpdate => "local_unsynced_change_vs_remote_update"@,
            SyncConflictKind::ArchiveVsUpdate => "archive_vs_update"@,
            SyncConflictKind::TerminalStatusProtected => "terminal_status_protected"@,
            SyncConflictKind::RestoreRequiresExplicitEvent => "restore_requires_explicit_event"@,
            SyncConflictKind::UnsupportedMergeStrategy => "unsupported_merge_strategy"@,
        }
    }

    /// The value a text form names, if any.
    pub open spec fn from_text(s: Seq<char>) -> Option<SyncConflictKind> {
        if s == "local_unsynced_change_vs_remote_update"@ {
            Some(SyncConflictKind::LocalUnsyncedChangeVsRemoteUpdate)
        } else if s == "archive_vs_update"@ {
            Some(SyncConflictKind::ArchiveVsUpdate)
        } else if s == "terminal_status_protected"@ {
            Some(SyncConflictKind::TerminalStatusProtected)
        } else if s == "restore_requires_explicit_event"@ {
            Some(SyncConflictKind::RestoreRequiresExplicitEvent)
        } else if s == "unsupported_merge_strategy"@ {
            Some(SyncConflictKind::UnsupportedMergeStrategy)
        } else {
            None
        }
    }

    /// The text form of the value.
    pub fn as_str(&self) -> (s: &'static str)
        ensures
            s@ == self.text(),
    {
        match self {
            SyncConflictKind::LocalUnsyncedChangeVsRemoteUpdate => "local_unsynced_change_vs_remote_update",
            SyncConflictKind::ArchiveVsUpdate => "archive_vs_update",
            SyncConflictKind::TerminalStatusProtected => "terminal_status_protected",
            SyncConflictKind::RestoreRequiresExplicitEvent => "restore_requires_explicit_event",
            SyncConflictKind::UnsupportedMergeStrategy => "unsupported_merge_strategy",
        }
    }

    /// Parse the text form of a value; `None` for any other text.
    pub fn parse(value: &str) -> (r: Option<SyncConflictKind>)
        ensures
            r == SyncConflictKind::from_text(value@),
    {
        if str_eq(value, "local_unsynced_change_vs_remote_update") {
            Some(SyncConflictKind::LocalUnsyncedChangeVsRemoteUpdate)
        } else if str_eq(value, "archive_vs_update") {
            Some(SyncConflictKind::ArchiveVsUpdate)
        } else if str_eq(value, "terminal_status_protected") {
            Some(SyncConflictKind::TerminalStatusProtected)
        } else if str_eq(value, "restore_requires_explicit_event") {
            Some(SyncConflictKind::RestoreRequiresExplicitEvent)
        } else if str_eq(value, "unsupported_merge_strategy") {
            Some(SyncConflictKind::UnsupportedMergeStrategy)
        } else {
            None
        }
    }
}

impl SyncConflictKind {
    /// Reading back the text form of a value gives the value.
    pub proof fn lemma_text_round_trip(self)
        ensures
            SyncConflictKind::from_text(self.text()) == Some(self),
    {
        match self {
            SyncConflictKind::LocalUnsyncedChangeVsRemoteUpdate => {
                reveal_strlit("local_unsynced_change_vs_remote_update");
            },
            SyncConflictKind::ArchiveVsUpdate => {
                reveal_strlit("archive_vs_update");
                reveal_strlit("local_unsynced_change_vs_remote_update");
                assert("archive_vs_update"@.len() != "local_unsynced_change_vs_remote_update"@.len());
            },
            SyncConflictKind::TerminalStatusProtected => {
                reveal_strlit("terminal_status_protected");
                reveal_strlit("local_unsynced_change_vs_remote_update");
                assert("terminal_status_protected"@.len() != "local_unsynced_change_vs_remote_update"@.len());
                reveal_strlit("archive_vs_update");
                assert("terminal_status_protected"@.len() != "archive_vs_update"@.len());
            },
            SyncConflictKind::RestoreRequiresExplicitEvent => {
                reveal_strlit("restore_requires_explicit_event");
                reveal_strlit("local_unsynced_change_vs_remote_update");
                assert("restore_requires_explicit_event"@.len() != "local_unsynced_change_vs_remote_update"@.len());
                reveal_strlit("archive_vs_update");
                assert("restore_requires_explicit_event"@.len() != "archive_vs_update"@.len());
                reveal_strlit("terminal_status_protected");
                assert("restore_requires_explicit_event"@.len() != "terminal_status_protected"@.len());
            },
            SyncConflictKind::UnsupportedMergeStrategy => {
                reveal_strlit("unsupported_merge_strategy");
                reveal_strlit("local_unsynced_change_vs_remote_update");
                assert("unsupported_merge_strategy"@.len() != "local_unsynced_change_vs_remote_update"@.len());
                reveal_strlit("archive_vs_update");
                assert("unsupported_merge_strategy"@.len() != "archive_vs_update"@.len());
                reveal_strlit("terminal_status_protected");
                assert("unsupported_merge_strategy"@.len() != "terminal_status_protected"@.len());
                reveal_strlit("restore_requires_explicit_event");
                assert("unsupported_merge_strategy"@.len() != "restore_requires_explicit_event"@.len());
            },
        }
    }
}

/// What the conflict policy did with a remote change.
#[derive(Clone, Copy, Debug, PartialEq, Eq, Structural)]
pub enum SyncConflictPolicyAction {
    AppliedRemote,
    KeptLocal,
    RecordedOnly,
    AutoResolved,
}

impl SyncConflictPolicyAction {
    /// The text form of the value.
    pub open spec fn text(self) -> Seq<char> {
        match self {
            SyncConflictPolicyAction::AppliedRemote => "applied_remote"@,
            SyncConflictPolicyAction::KeptLocal => "kept_local"@,
            SyncConflictPolicyAction::RecordedOnly => "recorded_only"@,
            SyncConflictPolicyAction::AutoResolved => "auto_resolved"@,
        }
    }

    /// The value a text form names, if any.
    pub open spec fn from_text(s: Seq<char>) -> Option<SyncConflictPolicyAction> {
        if s == "applied_remote"@ {
            Some(SyncConflictPolicyAction::AppliedRemote)
        } else if s == "kept_local"@ {
            Some(SyncConflictPolicyAction::KeptLocal)
        } else if s == "recorded_only"@ {
            Some(SyncConflictPolicyAction::RecordedOnly)
        } else if s == "auto_resolved"@ {
            Some(SyncConflictPolicyAction::AutoResolved)
        } else {
            None
        }
    }

    /// The text form of the value.
    pub fn as_str(&self) -> (s: &'static str)
        ensures
            s@ == self.text(),
    {
        match self {
            SyncConflictPolicyAction::AppliedRemote => "applied_remote",
            SyncConflictPolicyAction::KeptLocal => "kept_local",
            SyncConflictPolicyAction::RecordedOnly => "recorded_only",
            SyncConflictPolicyAction::AutoResolved => "auto_resolved",
        }
    }

    /// Parse the text form of a value; `None` for any other text.
    pub fn parse(value: &str) -> (r: Option<SyncConflictPolicyAction>)
        ensures
            r == SyncConflictPolicyAction::from_text(value@),
    {
        if str_eq(value, "applied_remote") {
            Some(SyncConflictPolicyAction::AppliedRemote)
        } else if str_eq(value, "kept_local") {
            Some(SyncConflictPolicyAction::KeptLocal)
        } else if str_eq(value, "recorded_only") {
            Some(SyncConflictPolicyAction::RecordedOnly)
        } else if str_eq(value, "auto_resolved") {
            Some(SyncConflictPolicyAction::AutoResolved)
        } else {
            None
        }
    }
}

impl SyncConflictPolicyAction {
    /// Reading back the text form of a value gives the value.
    pub proof fn lemma_text_round_trip(self)
        ensures
            SyncConflictPolicyAction::from_text(self.text()) == Some(self),
    {
        match self {
            SyncConflictPolicyAction::AppliedRemote => {
                reveal_strlit("applied_remote");
            },
            SyncConflictPolicyAction::KeptLocal => {
                reveal_strlit("kept_local");
                reveal_strlit("applied_remote");
                assert("kept_local"@.len() != "applied_remote"@.len());
            },
            SyncConflictPolicyAction::RecordedOnly => {
                reveal_strlit("recorded_only");
                reveal_strlit("applied_remote");
                assert("recorded_only"@.len() != "applied_remote"@.len());
                reveal_strlit("kept_local");
                assert("recorded_only"@.len() != "kept_local"@.len());
            },
            SyncConflictPolicyAction::AutoResolved => {
                reveal_strlit("auto_resolved");
                reveal_strlit("applied_remote");
                assert("auto_resolved"@.len() != "applied_remote"@.len());
                reveal_strlit("kept_local");
                assert("auto_resolved"@.len() != "kept_local"@.len());
                reveal_strlit("recorded_only");
                assert("auto_resolved"@[0] != "recorded_only"@[0]);
            },
        }
    }
}

/// Whether a recorded conflict still needs attention.
#[derive(Clone, Copy, Debug, PartialEq, Eq, Structural)]
pub enum SyncConflictResolutionStatus {
    Open,
    AutoResolved,
    Ignored,
}

impl SyncConflictResolutionStatus {
    /// The text form of the value.
    pub open spec fn text(self) -> Seq<char> {
        match self {
            SyncConflictResolutionStatus::Open => "open"@,
            SyncConflictResolutionStatus::AutoResolved => "auto_resolved"@,
            SyncConflictResolutionStatus::Ignored => "ignored"@,
        }
    }

    /// The value a text form names, if any.
    pub open spec fn from_text(s: Seq<char>) -> Option<SyncConflictResolutionStatus> {
        if s == "open"@ {
            Some(SyncConflictResolutionStatus::Open)
        } else if s == "auto_resolved"@ {
            Some(SyncConflictResolutionStatus::AutoResolved)
        } else if s == "ignored"@ {
            Some(SyncConflictResolutionStatus::Ignored)
        } else {
            None
        }
    }

    /// The text form of the value.
    pub fn as_str(&self) -> (s: &'static str)
        ensures
            s@ == self.text(),
    {
        match self {
            SyncConflictResolutionStatus::Open => "open",
            SyncConflictResolutionStatus::AutoResolved => "auto_resolved",
            SyncConflictResolutionStatus::Ignored => "ignored",
        }
    }

    /// Parse the text form of a value; `None` for any other text.
    pub fn parse(value: &str) -> (r: Option<SyncConflictResolutionStatus>)
        ensures
            r == SyncConflictResolutionStatus::from_text(value@),
    {
        if str_eq(value, "open") {
            Some(SyncConflictResolutionStatus::Open)
        } else if str_eq(value, "auto_resolved") {
            Some(SyncConflictResolutionStatus::AutoResolved)
        } else if str_eq(value, "ignored") {
            Some(SyncConflictResolutionStatus::Ignored)
        } else {
            None
        }
    }
}

impl SyncConflictResolutionStatus {
    /// Reading back the text form of a value gives the value.
    pub proof fn lemma_text_round_trip(self)
        ensures
            SyncConflictResolutionStatus::from_text(self.text()) == Some(self),
    {
        match self {
            SyncConflictResolutionStatus::Open => {
                reveal_strlit("open");
            },
            SyncConflictResolutionStatus::AutoResolved => {
                reveal_strlit("auto_resolved");
                reveal_strlit("open");
                assert("auto_resolved"@.len() != "open"@.len());
            },
            SyncConflictResolutionStatus::Ignored => {
                reveal_strlit("ignored");
                reveal_strlit("open");
                assert("ignored"@.len() != "open"@.len());
                reveal_strlit("auto_resolved");
                assert("ignored"@.len() != "auto_resolved"@.len());
            },
        }
    }
}

/// How a remote update meets unsynced local changes.
#[derive(Clone, Copy, Debug, PartialEq, Eq, Structural)]
pub enum FieldMergeStrategy {
    LastWriteWinsWholeEntity,
    LastWriteWinsPerField,
    RecordConflict,
}

/// How an archive meets an update.
#[derive(Clone, Copy, Debug, PartialEq, Eq, Structural)]
pub enum ArchiveConflictStrategy {
    ArchiveWins,
    LastWriteWins,
    RecordConflict,
}

/// How an archived entity may come back.
#[derive(Clone, Copy, Debug, PartialEq, Eq, Structural)]
pub enum RestoreConflictStrategy {
    ExplicitRestoreOnly,
    LastWriteWins,
    RecordConflict,
}

/// How competing task status changes are ordered.
#[derive(Clone, Copy, Debug, PartialEq, Eq, Structural)]
pub enum StatusConflictStrategy {
    ServerOrderWins,
    TerminalStatusProtected,
    RecordConflict,
}

/// Whether a finished task may be reopened by a remote update.
#[derive(Clone, Copy, Debug, PartialEq, Eq, Structural)]
pub enum TerminalStatusConflictStrategy {
    ProtectDoneCanceledArchived,
    ServerOrderWins,
    RecordConflict,
}

/// What became of one remote event.
#[derive(Clone, Copy, Debug, PartialEq, Eq, Structural)]
pub enum RemoteApplyStatus {
    Applied,
    AlreadyApplied,
    SkippedLocalEcho,
}

/// Overall state of the sync connection.
#[derive(Clone, Copy, Debug, PartialEq, Eq, Structural)]
pub enum SyncConnectionState {
    Disabled,
    NotConfigured,
    Ready,
    Syncing,
    Error,
}

/// Conflict rules for organizations and projects.
#[derive(Clone, Copy, Debug, PartialEq, Eq, Structural)]
pub struct EntityConflictPolicy {
    pub normal_update: FieldMergeStrategy,
    pub archive_vs_update: ArchiveConflictStrategy,
    pub restore_behavior: RestoreConflictStrategy,
}

/// Conflict rules for tasks.
#[derive(Clone, Copy, Debug, PartialEq, Eq, Structural)]
pub struct TaskConflictPolicy {
    pub normal_update: FieldMergeStrategy,
    pub status_update: StatusConflictStrategy,
    pub terminal_status_behavior: TerminalStatusConflictStrategy,
    pub archive_vs_update: ArchiveConflictStrategy,
    pub restore_behavior: RestoreConflictStrategy,
}

/// The conflict rules of each entity kind.
#[derive(Clone, Copy, Debug, PartialEq, Eq, Structural)]
pub struct ConflictPolicy {
    pub organization: EntityConflictPolicy,
    pub project: EntityConflictPolicy,
    pub task: TaskConflictPolicy,
}

/// The default rules for organizations and projects: whole-entity last write wins, an archive
/// wins over an update, and only an explicit restore brings an entity back.
pub open spec fn default_entity_policy() -> EntityConflictPolicy {
    EntityConflictPolicy {
        normal_update: FieldMergeStrategy::LastWriteWinsWholeEntity,
        archive_vs_update: ArchiveConflictStrategy::ArchiveWins,
        restore_behavior: RestoreConflictStrategy::ExplicitRestoreOnly,
    }
}

/// The default rules for tasks: as for other entities, plus server order for status changes
/// and protection of finished tasks.
pub open spec fn default_task_policy() -> TaskConflictPolicy {
    TaskConflictPolicy {
        normal_update: FieldMergeStrategy::LastWriteWinsWholeEntity,
        status_update: StatusConflictStrategy::ServerOrderWins,
        terminal_status_behavior: TerminalStatusConflictStrategy::ProtectDoneCanceledArchived,
        archive_vs_update: ArchiveConflictStrategy::ArchiveWins,
        restore_behavior: RestoreConflictStrategy::ExplicitRestoreOnly,
    }
}

/// The default policy of every entity kind.
pub open spec fn default_conflict_policy() -> ConflictPolicy {
    ConflictPolicy {
        organization: default_entity_policy(),
        project: default_entity_policy(),
        task: default_task_policy(),
    }
}

impl Default for EntityConflictPolicy {
    fn default() -> (p: Self)
        ensures
            p == default_entity_policy(),
    {
        EntityConflictPolicy {
            normal_update: FieldMergeStrategy::LastWriteWinsWholeEntity,
            archive_vs_update: ArchiveConflictStrategy::ArchiveWins,
            restore_behavior: RestoreConflictStrategy::ExplicitRestoreOnly,
        }
    }
}

impl Default for TaskConflictPolicy {
    fn default() -> (p: Self)
        ensures
            p == default_task_policy(),
    {
        TaskConflictPolicy {
            normal_update: FieldMergeStrategy::LastWriteWinsWholeEntity,
            status_update: StatusConflictStrategy::ServerOrderWins,
            terminal_status_behavior: TerminalStatusConflictStrategy::ProtectDoneCanceledArchived,
            archive_vs_update: ArchiveConflictStrategy::ArchiveWins,
            restore_behavior: RestoreConflictStrategy::ExplicitRestoreOnly,
        }
    }
}

impl Default for ConflictPolicy {
    fn default() -> (p: Self)
        ensures
            p == default_conflict_policy(),
    {
        ConflictPolicy {
            organization: EntityConflictPolicy::default(),
            project: EntityConflictPolicy::default(),
            task: TaskConflictPolicy::default(),
        }
    }
}

/// Whether a task status is final: done or canceled.
pub open spec fn terminal_status(status: TaskStatus) -> bool {
    status == TaskStatus::Done || status == TaskStatus::Canceled
}

/// Whether a task status is final: done or canceled.
pub fn is_terminal_task_status(status: TaskStatus) -> (r: bool)
    ensures
        r == terminal_status(status),
{
    match status {
        TaskStatus::Done | TaskStatus::Canceled => true,
        _ => false,
    }
}

/// An entity as a sync payload or a local snapshot holds it.
#[derive(Clone, Debug)]
pub enum SyncEntity {
    Organization(Organization),
    Project(Project),
    Task(Task),
}

/// The payload of a remote event, read: the entity it carries, or the id of what it archives.
#[derive(Clone, Debug)]
pub enum RemotePayload {
    Entity(SyncEntity),
    Archive { id: String, archived_at: Timestamp },
    /// No entity where one was due.
    Missing,
    /// A payload the parser could not read as the event's entity or archive, with the
    /// parser's message.
    Unreadable(String),
}

/// The id of an entity.
pub open spec fn entity_id_of(e: SyncEntity) -> Seq<char> {
    match e {
        SyncEntity::Organization(o) => o.id@,
        SyncEntity::Project(p) => p.id@,
        SyncEntity::Task(t) => t.id@,
    }
}

/// Whether an entity is of the kind `t`.
pub open spec fn entity_is_of(e: SyncEntity, t: SyncEntityType) -> bool {
    match e {
        SyncEntity::Organization(_) => t == SyncEntityType::Organization,
        SyncEntity::Project(_) => t == SyncEntityType::Project,
        SyncEntity::Task(_) => t == SyncEntityType::Task,
    }
}

/// `remote event entity ID {id} does not match payload ID {pid}`
pub open spec fn id_mismatch_text(id: Seq<char>, pid: Seq<char>) -> Seq<char> {
    "remote event entity ID "@ + id + " does not match payload ID "@ + pid
}

/// `invalid remote {kind} archive payload`
pub open spec fn bad_archive_text(t: SyncEntityType) -> Seq<char> {
    "invalid remote "@ + t.text() + " archive payload"@
}

/// `remote {kind} event payload is missing entity`
pub open spec fn missing_entity_text(t: SyncEntityType) -> Seq<char> {
    "remote "@ + t.text() + " event payload is missing entity"@
}

/// `invalid remote {kind} event entity`
pub open spec fn bad_entity_text(t: SyncEntityType) -> Seq<char> {
    "invalid remote "@ + t.text() + " event entity"@
}

/// Why the payload of a remote event on entity `id` of kind `t` is refused, if it is: an
/// archive must carry an archive payload naming `id`; any other event must carry an entity,
/// of kind `t` and with id `id` wherever the entity is read (all but a transition of an
/// organization or project, whose entity is only carried along).
pub open spec fn remote_payload_refusal(
    t: SyncEntityType,
    id: Seq<char>,
    op: SyncOperation,
    payload: RemotePayload,
) -> Option<Seq<char>> {
    if op == SyncOperation::Archived {
        match payload {
            RemotePayload::Archive { id: pid, .. } => if pid@ == id {
                None
            } else {
                Some(id_mismatch_text(id, pid@))
            },
            RemotePayload::Unreadable(m) => Some("invalid remote "@ + t.text() + " archive payload: "@ + m@),
            _ => Some(bad_archive_text(t)),
        }
    } else {
        match payload {
            RemotePayload::Entity(e) => if op == SyncOperation::Transitioned && t
                != SyncEntityType::Task {
                None
            } else if !entity_is_of(e, t) {
                Some(bad_entity_text(t))
            } else if entity_id_of(e) == id {
                None
            } else {
                Some(id_mismatch_text(id, entity_id_of(e)))
            },
            RemotePayload::Unreadable(m) => Some("invalid remote "@ + t.text() + " event entity: "@ + m@),
            _ => Some(missing_entity_text(t)),
        }
    }
}

/// What the conflict policy decided about one remote change.
#[derive(Clone, Copy, Debug, PartialEq, Eq, Structural)]
pub struct RemoteConflictDecision {
    pub apply_remote: bool,
    pub conflict_kind: SyncConflictKind,
    pub policy_action: SyncConflictPolicyAction,
    pub resolution_status: SyncConflictResolutionStatus,
}

/// An open conflict record of the given kind and action.
pub open spec fn open_conflict(
    apply_remote: bool,
    kind: SyncConflictKind,
    action: SyncConflictPolicyAction,
) -> RemoteConflictDecision {
    RemoteConflictDecision {
        apply_remote,
        conflict_kind: kind,
        policy_action: action,
        resolution_status: SyncConflictResolutionStatus::Open,
    }
}

/// The normal-update strategy the policy sets for entities of kind `t`.
pub open spec fn normal_update_of(policy: ConflictPolicy, t: SyncEntityType) -> FieldMergeStrategy {
    match t {
        SyncEntityType::Organization => policy.organization.normal_update,
        SyncEntityType::Project => policy.project.normal_update,
        SyncEntityType::Task => policy.task.normal_update,
    }
}

/// Whether an archived local entity stands against a remote create or update that would bring
/// it back, under an archive-wins policy.
pub open spec fn archive_protects(
    op: SyncOperation,
    remote: RemotePayload,
    local: Option<SyncEntity>,
    policy: ConflictPolicy,
) -> bool {
    (op == SyncOperation::Created || op == SyncOperation::Updated) && match (remote, local) {
        (
            RemotePayload::Entity(SyncEntity::Organization(r)),
            Some(SyncEntity::Organization(l)),
        ) => l.archived_at is Some && r.archived_at is None && policy.organization.archive_vs_update
            == ArchiveConflictStrategy::ArchiveWins,
        (RemotePayload::Entity(SyncEntity::Project(r)), Some(SyncEntity::Project(l))) => (
        l.archived_at is Some || l.status == ProjectStatus::Archived) && r.archived_at is None
            && r.status != ProjectStatus::Archived && policy.project.archive_vs_update
            == ArchiveConflictStrategy::ArchiveWins,
        _ => false,
    }
}

/// Whether a finished local task stands against a remote update that would reopen it, when
/// the policy protects finished tasks. An explicit transition is not held back.
pub open spec fn terminal_protects(
    op: SyncOperation,
    remote: RemotePayload,
    local: Option<SyncEntity>,
    policy: ConflictPolicy,
) -> bool {
    op == SyncOperation::Updated && policy.task.terminal_status_behavior
        == TerminalStatusConflictStrategy::ProtectDoneCanceledArchived && match (remote, local) {
        (RemotePayload::Entity(SyncEntity::Task(r)), Some(SyncEntity::Task(l))) => terminal_status(
            l.status,
        ) && !terminal_status(r.status),
        _ => false,
    }
}

/// The conflict policy's decision on a remote change of kind `op` to an entity of kind `t`,
/// given its payload, the local entity (if any) and whether local changes to it are unsynced.
/// `None`: no conflict, the change applies.
pub open spec fn conflict_rule(
    t: SyncEntityType,
    op: SyncOperation,
    remote: RemotePayload,
    local: Option<SyncEntity>,
    has_unsynced_local: bool,
    policy: ConflictPolicy,
) -> Option<RemoteConflictDecision> {
    if op == SyncOperation::Archived {
        if has_unsynced_local {
            Some(
                open_conflict(
                    true,
                    SyncConflictKind::ArchiveVsUpdate,
                    SyncConflictPolicyAction::AppliedRemote,
                ),
            )
        } else {
            None
        }
    } else if archive_protects(op, remote, local, policy) {
        Some(
            open_conflict(false, SyncConflictKind::ArchiveVsUpdate, SyncConflictPolicyAction::KeptLocal),
        )
    } else if terminal_protects(op, remote, local, policy) {
        Some(
            open_conflict(
                false,
                SyncConflictKind::TerminalStatusProtected,
                SyncConflictPolicyAction::KeptLocal,
            ),
        )
    } else if has_unsynced_local {
        let record_only = normal_update_of(policy, t) == FieldMergeStrategy::RecordConflict;
        Some(
            open_conflict(
                !record_only,
                SyncConflictKind::LocalUnsyncedChangeVsRemoteUpdate,
                if record_only {
                    SyncConflictPolicyAction::RecordedOnly
                } else {
                    SyncConflictPolicyAction::AppliedRemote
                },
            ),
        )
    } else {
        None
    }
}

/// Whether the remote change is written, given the decision on it.
pub open spec fn applies_remote(d: Option<RemoteConflictDecision>) -> bool {
    match d {
        None => true,
        Some(d) => d.apply_remote,
    }
}

fn id_mismatch(id: &str, pid: &str) -> (e: CoreError)
    ensures
        e matches CoreError::Validation(m) && m@ == id_mismatch_text(id@, pid@),
{
    let mut m = to_string("remote event entity ID ");
    push_str(&mut m, id);
    push_str(&mut m, " does not match payload ID ");
    push_str(&mut m, pid);
    CoreError::Validation(m)
}

fn kind_message(prefix: &str, t: SyncEntityType, suffix: &str) -> (e: CoreError)
    ensures
        e matches CoreError::Validation(m) && m@ == prefix@ + t.text() + suffix@,
{
    let mut m = to_string(prefix);
    push_str(&mut m, t.as_str());
    push_str(&mut m, suffix);
    CoreError::Validation(m)
}

fn kind_detail_message(prefix: &str, t: SyncEntityType, middle: &str, detail: &str) -> (e: CoreError)
    ensures
        e matches CoreError::Validation(m) && m@ == prefix@ + t.text() + middle@ + detail@,
{
    let mut m = to_string(prefix);
    push_str(&mut m, t.as_str());
    push_str(&mut m, middle);
    push_str(&mut m, detail);
    CoreError::Validation(m)
}

fn entity_id(e: &SyncEntity) -> (r: &str)
    ensures
        r@ == entity_id_of(*e),
{
    match e {
        SyncEntity::Organization(o) => o.id.as_str(),
        SyncEntity::Project(p) => p.id.as_str(),
        SyncEntity::Task(t) => t.id.as_str(),
    }
}

fn entity_kind(e: &SyncEntity) -> (r: SyncEntityType)
    ensures
        entity_is_of(*e, r),
{
    match e {
        SyncEntity::Organization(_) => SyncEntityType::Organization,
        SyncEntity::Project(_) => SyncEntityType::Project,
        SyncEntity::Task(_) => SyncEntityType::Task,
    }
}

/// Check the payload of a remote event against the event: its kind and the id it names.
pub fn check_remote_payload(
    entity_type: SyncEntityType,
    entity_id_text: &str,
    operation: SyncOperation,
    payload: &RemotePayload,
) -> (r: Result<(), CoreError>)
    ensures
        match remote_payload_refusal(entity_type, entity_id_text@, operation, *payload) {
            None => r is Ok,
            Some(m) => r matches Err(CoreError::Validation(e)) && e@ == m,
        },
{
    if operation == SyncOperation::Archived {
        match payload {
            RemotePayload::Archive { id, .. } => {
                if str_eq(id.as_str(), entity_id_text) {
                    Ok(())
                } else {
                    Err(id_mismatch(entity_id_text, id.as_str()))
                }
            },
            RemotePayload::Unreadable(m) => Err(kind_detail_message("invalid remote ", entity_type, " archive payload: ", m.as_str())),
            _ => Err(kind_message("invalid remote ", entity_type, " archive payload")),
        }
    } else {
        match payload {
            RemotePayload::Entity(e) => {
                if operation == SyncOperation::Transitioned && entity_type != SyncEntityType::Task {
                    return Ok(());
                }
                let k = entity_kind(e);
                if k != entity_type {
                    return Err(kind_message("invalid remote ", entity_type, " event entity"));
                }
                let pid = entity_id(e);
                if str_eq(pid, entity_id_text) {
                    Ok(())
                } else {
                    Err(id_mismatch(entity_id_text, pid))
                }
            },
            RemotePayload::Unreadable(m) => Err(kind_detail_message("invalid remote ", entity_type, " event entity: ", m.as_str())),
            _ => Err(kind_message("remote ", entity_type, " event payload is missing entity")),
        }
    }
}

fn archive_protected(
    operation: SyncOperation,
    remote: &RemotePayload,
    local: &Option<SyncEntity>,
    policy: &ConflictPolicy,
) -> (r: bool)
    ensures
        r == archive_protects(operation, *remote, *local, *policy),
{
    if !(operation == SyncOperation::Created || operation == SyncOperation::Updated) {
        return false;
    }
    match (remote, local) {
        (
            RemotePayload::Entity(SyncEntity::Organization(r)),
            Some(SyncEntity::Organization(l)),
        ) => l.archived_at.is_some() && r.archived_at.is_none()
            && policy.organization.archive_vs_update == ArchiveConflictStrategy::ArchiveWins,
        (RemotePayload::Entity(SyncEntity::Project(r)), Some(SyncEntity::Project(l))) => (
        l.archived_at.is_some() || l.status == ProjectStatus::Archived) && r.archived_at.is_none()
            && r.status != ProjectStatus::Archived && policy.project.archive_vs_update
            == ArchiveConflictStrategy::ArchiveWins,
        _ => false,
    }
}

fn terminal_protected(
    operation: SyncOperation,
    remote: &RemotePayload,
    local: &Option<SyncEntity>,
    policy: &ConflictPolicy,
) -> (r: bool)
    ensures
        r == terminal_protects(operation, *remote, *local, *policy),
{
    if !(operation == SyncOperation::Updated && policy.task.terminal_status_behavior
        == TerminalStatusConflictStrategy::ProtectDoneCanceledArchived) {
        return false;
    }
    match (remote, local) {
        (RemotePayload::Entity(SyncEntity::Task(r)), Some(SyncEntity::Task(l))) => {
            is_terminal_task_status(l.status) && !is_terminal_task_status(r.status)
        },
        _ => false,
    }
}

fn normal_update_for(policy: &ConflictPolicy, t: SyncEntityType) -> (s: FieldMergeStrategy)
    ensures
        s == normal_update_of(*policy, t),
{
    match t {
        SyncEntityType::Organization => policy.organization.normal_update,
        SyncEntityType::Project => policy.project.normal_update,
        SyncEntityType::Task => policy.task.normal_update,
    }
}

/// Decide what becomes of a remote change to entity `entity_id_text` of kind `entity_type`:
/// `Ok(None)` when it applies without conflict, `Ok(Some(d))` when a conflict is recorded
/// (and `d.apply_remote` says whether the change still applies), `Err` when the payload does
/// not fit the event.
pub fn remote_conflict_decision(
    entity_type: SyncEntityType,
    entity_id_text: &str,
    operation: SyncOperation,
    remote: &RemotePayload,
    local: &Option<SyncEntity>,
    has_unsynced_local: bool,
    policy: &ConflictPolicy,
) -> (r: Result<Option<RemoteConflictDecision>, CoreError>)
    ensures
        match remote_payload_refusal(entity_type, entity_id_text@, operation, *remote) {
            Some(m) => r matches Err(CoreError::Validation(e)) && e@ == m,
            None => r == Ok::<Option<RemoteConflictDecision>, CoreError>(
                conflict_rule(entity_type, operation, *remote, *local, has_unsynced_local, *policy),
            ),
        },
{
    check_remote_payload(entity_type, entity_id_text, operation, remote)?;
    if operation == SyncOperation::Archived {
        if has_unsynced_local {
            return Ok(
                Some(
                    RemoteConflictDecision {
                        apply_remote: true,
                        conflict_kind: SyncConflictKind::ArchiveVsUpdate,
                        policy_action: SyncConflictPolicyAction::AppliedRemote,
                        resolution_status: SyncConflictResolutionStatus::Open,
                    },
                ),
            );
        }
        return Ok(None);
    }
    if archive_protected(operation, remote, local, policy) {
        return Ok(
            Some(
                RemoteConflictDecision {
                    apply_remote: false,
                    conflict_kind: SyncConflictKind::ArchiveVsUpdate,
                    policy_action: SyncConflictPolicyAction::KeptLocal,
                    resolution_status: SyncConflictResolutionStatus::Open,
                },
            ),
        );
    }
    if terminal_protected(operation, remote, local, policy) {
        return Ok(
            Some(
                RemoteConflictDecision {
                    apply_remote: false,
                    conflict_kind: SyncConflictKind::TerminalStatusProtected,
                    policy_action: SyncConflictPolicyAction::KeptLocal,
                    resolution_status: SyncConflictResolutionStatus::Open,
                },
            ),
        );
    }
    if !has_unsynced_local {
        return Ok(None);
    }
    let record_only = normal_update_for(policy, entity_type) == FieldMergeStrategy::RecordConflict;
    Ok(
        Some(
            RemoteConflictDecision {
                apply_remote: !record_only,
                conflict_kind: SyncConflictKind::LocalUnsyncedChangeVsRemoteUpdate,
                policy_action: if record_only {
                    SyncConflictPolicyAction::RecordedOnly
                } else {
                    SyncConflictPolicyAction::AppliedRemote
                },
                resolution_status: SyncConflictResolutionStatus::Open,
            },
        ),
    )
}

/// What becomes of a remote event before its change is looked at: an event from this device
/// is an echo and skipped, one already applied is not applied again.
pub fn remote_apply_status(
    event_device_id: &str,
    local_device_id: &str,
    already_applied: bool,
) -> (s: RemoteApplyStatus)
    ensures
        s == (if event_device_id@ == local_device_id@ {
            RemoteApplyStatus::SkippedLocalEcho
        } else if already_applied {
            RemoteApplyStatus::AlreadyApplied
        } else {
            RemoteApplyStatus::Applied
        }),
{
    if str_eq(event_device_id, local_device_id) {
        RemoteApplyStatus::SkippedLocalEcho
    } else if already_applied {
        RemoteApplyStatus::AlreadyApplied
    } else {
        RemoteApplyStatus::Applied
    }
}

/// Entities a remote batch creates first come first: organizations, then projects, then tasks.
pub open spec fn dependency_rank(t: SyncEntityType) -> nat {
    match t {
        SyncEntityType::Organization => 0,
        SyncEntityType::Project => 1,
        SyncEntityType::Task => 2,
    }
}

/// The place of an entity kind in the order a remote batch is applied in.
pub fn remote_apply_dependency_rank(entity_type: SyncEntityType) -> (r: u8)
    ensures
        r == dependency_rank(entity_type),
{
    match entity_type {
        SyncEntityType::Organization => 0,
        SyncEntityType::Project => 1,
        SyncEntityType::Task => 2,
    }
}

/// The positions in `types` holding a kind of rank `r`, in increasing order.
pub open spec fn positions_of_rank(types: Seq<SyncEntityType>, r: nat) -> Seq<int>
    decreases types.len(),
{
    if types.len() == 0 {
        Seq::empty()
    } else {
        let before = positions_of_rank(types.drop_last(), r);
        if dependency_rank(types.last()) == r {
            before.push(types.len() - 1)
        } else {
            before
        }
    }
}

/// The order a remote batch is applied in: a stable sort of the events by the rank of their
/// entity kind.
pub open spec fn apply_order(types: Seq<SyncEntityType>) -> Seq<int> {
    positions_of_rank(types, 0) + positions_of_rank(types, 1) + positions_of_rank(types, 2)
}

/// The positions of a batch of events on entities of the given kinds, in the order they are
/// applied: a stable sort by dependency rank.
pub fn remote_apply_order(types: &[SyncEntityType]) -> (order: Vec<usize>)
    ensures
        order@.map_values(|i: usize| i as int) == apply_order(types@),
{
    let n = types.len();
    let mut order: Vec<usize> = Vec::new();
    let mut rank: u8 = 0;
    while rank < 3
        invariant
            n == types@.len(),
            rank <= 3,
            order@.map_values(|i: usize| i as int) == (if rank == 0 {
                Seq::<int>::empty()
            } else if rank == 1 {
                positions_of_rank(types@, 0)
            } else if rank == 2 {
                positions_of_rank(types@, 0) + positions_of_rank(types@, 1)
            } else {
                apply_order(types@)
            }),
        decreases 3 - rank,
    {
        let ghost start = order@.map_values(|i: usize| i as int);
        let mut i: usize = 0;
        proof {
            assert(types@.subrange(0, 0) =~= Seq::<SyncEntityType>::empty());
            assert(start + positions_of_rank(types@.subrange(0, 0), rank as nat) =~= start);
        }
        while i < n
            invariant
                n == types@.len(),
                rank < 3,
                i <= n,
                order@.map_values(|i: usize| i as int) == start + positions_of_rank(
                    types@.subrange(0, i as int),
                    rank as nat,
                ),
            decreases n - i,
        {
            proof {
                let pre = types@.subrange(0, i as int + 1);
                assert(pre.drop_last() =~= types@.subrange(0, i as int));
                assert(pre.last() == types@[i as int]);
            }
            if remote_apply_dependency_rank(types[i]) == rank {
                let ghost before = order@;
                order.push(i);
                proof {
                    assert(order@ =~= before.push(i));
                    assert(order@.map_values(|i: usize| i as int) =~= before.map_values(
                        |i: usize| i as int,
                    ).push(i as int));
                    assert(order@.map_values(|i: usize| i as int) =~= start + positions_of_rank(
                        types@.subrange(0, i as int + 1),
                        rank as nat,
                    ));
                }
            } else {
                proof {
                    assert(order@.map_values(|i: usize| i as int) =~= start + positions_of_rank(
                        types@.subrange(0, i as int + 1),
                        rank as nat,
                    ));
                }
            }
            i = i + 1;
        }
        proof {
            assert(types@.subrange(0, n as int) =~= types@);
        }
        rank = rank + 1;
    }
    order
}

/// Every position of rank `r` appears in `positions_of_rank`, in increasing order, and only
/// those positions do.
pub proof fn lemma_positions_of_rank(types: Seq<SyncEntityType>, r: nat)
    ensures
        forall|k: int|
            0 <= k < positions_of_rank(types, r).len() ==> 0 <= #[trigger] positions_of_rank(
                types,
                r,
            )[k] < types.len() && dependency_rank(types[positions_of_rank(types, r)[k]]) == r,
        forall|k: int, l: int|
            0 <= k < l < positions_of_rank(types, r).len() ==> #[trigger] positions_of_rank(
                types,
                r,
            )[k] < #[trigger] positions_of_rank(types, r)[l],
        forall|i: int|
            0 <= i < types.len() && dependency_rank(types[i]) == r ==> #[trigger] positions_of_rank(
                types,
                r,
            ).contains(i),
    decreases types.len(),
{
    if types.len() > 0 {
        let pre = types.drop_last();
        lemma_positions_of_rank(pre, r);
        let p = positions_of_rank(pre, r);
        assert forall|i: int|
            0 <= i < types.len() && dependency_rank(types[i]) == r implies #[trigger] positions_of_rank(
            types,
            r,
        ).contains(i) by {
            if i < types.len() - 1 {
                assert(pre[i] == types[i]);
                assert(p.contains(i));
                let k = choose|k: int| 0 <= k < p.len() && p[k] == i;
                assert(positions_of_rank(types, r)[k] == i);
            } else {
                assert(positions_of_rank(types, r)[positions_of_rank(types, r).len() - 1] == i);
            }
        }
    }
}

/// The items of a batch whose kind has rank `r`, in batch order.
pub open spec fn items_of_rank<A>(items: Seq<A>, types: Seq<SyncEntityType>, r: nat) -> Seq<A>
    decreases items.len(),
{
    if items.len() == 0 {
        Seq::empty()
    } else {
        let before = items_of_rank(items.drop_last(), types.drop_last(), r);
        if dependency_rank(types.last()) == r {
            before.push(items.last())
        } else {
            before
        }
    }
}

/// A batch's items in the order they are applied.
pub open spec fn applied_sequence<A>(items: Seq<A>, types: Seq<SyncEntityType>) -> Seq<A> {
    apply_order(types).map_values(|i: int| items[i])
}

proof fn lemma_positions_pick<A>(items: Seq<A>, types: Seq<SyncEntityType>, r: nat)
    requires
        items.len() == types.len(),
    ensures
        positions_of_rank(types, r).map_values(|i: int| items[i]) == items_of_rank(items, types, r),
    decreases items.len(),
{
    if items.len() > 0 {
        let pi = items.drop_last();
        let pt = types.drop_last();
        lemma_positions_pick(pi, pt, r);
        lemma_positions_of_rank(pt, r);
        let p = positions_of_rank(pt, r);
        let fi = |i: int| items[i];
        let fp = |i: int| pi[i];
        assert(p.map_values(fi) =~= p.map_values(fp)) by {
            assert forall|k: int| 0 <= k < p.len() implies #[trigger] p.map_values(fi)[k] == p.map_values(fp)[k] by {
                assert(0 <= p[k] < pt.len());
            }
        }
        if dependency_rank(types.last()) == r {
            assert(positions_of_rank(types, r).map_values(fi) =~= p.map_values(fi).push(items[items.len() - 1]));
        }
    }
}

/// Law: the order a batch is applied in depends only on the order of the events of each kind
/// in it: two batches whose organizations, projects and tasks come in the same order each
/// are applied as the same sequence, however the kinds are interleaved.
pub proof fn lemma_apply_order_ignores_interleaving<A>(
    items1: Seq<A>,
    types1: Seq<SyncEntityType>,
    items2: Seq<A>,
    types2: Seq<SyncEntityType>,
)
    requires
        items1.len() == types1.len(),
        items2.len() == types2.len(),
        forall|r: nat| r < 3 ==> #[trigger] items_of_rank(items1, types1, r) == items_of_rank(items2, types2, r),
    ensures
        applied_sequence(items1, types1) == applied_sequence(items2, types2),
{
    lemma_positions_pick(items1, types1, 0);
    lemma_positions_pick(items1, types1, 1);
    lemma_positions_pick(items1, types1, 2);
    lemma_positions_pick(items2, types2, 0);
    lemma_positions_pick(items2, types2, 1);
    lemma_positions_pick(items2, types2, 2);
    assert(items_of_rank(items1, types1, 0) == items_of_rank(items2, types2, 0));
    assert(items_of_rank(items1, types1, 1) == items_of_rank(items2, types2, 1));
    assert(items_of_rank(items1, types1, 2) == items_of_rank(items2, types2, 2));
    let f1 = |i: int| items1[i];
    let f2 = |i: int| items2[i];
    let (a0, a1, a2) = (positions_of_rank(types1, 0), positions_of_rank(types1, 1), positions_of_rank(types1, 2));
    let (b0, b1, b2) = (positions_of_rank(types2, 0), positions_of_rank(types2, 1), positions_of_rank(types2, 2));
    assert((a0 + a1 + a2).map_values(f1) =~= a0.map_values(f1) + a1.map_values(f1) + a2.map_values(f1));
    assert((b0 + b1 + b2).map_values(f2) =~= b0.map_values(f2) + b1.map_values(f2) + b2.map_values(f2));
}

/// The entity kinds of a batch of events.
pub open spec fn event_kinds(events: Seq<SyncEvent>) -> Seq<SyncEntityType> {
    events.map_values(|e: SyncEvent| e.entity_type)
}

/// Law: two pulled batches whose organization events, project events and task events come in
/// the same order each are applied as the same sequence of events, however they interleave:
/// organizations first, then projects, then tasks.
pub proof fn lemma_event_batches_apply_alike(events1: Seq<SyncEvent>, events2: Seq<SyncEvent>)
    requires
        forall|r: nat|
            r < 3 ==> #[trigger] items_of_rank(events1, event_kinds(events1), r) == items_of_rank(
                events2,
                event_kinds(events2),
                r,
            ),
    ensures
        applied_sequence(events1, event_kinds(events1)) == applied_sequence(events2, event_kinds(events2)),
{
    lemma_apply_order_ignores_interleaving(events1, event_kinds(events1), events2, event_kinds(events2));
}

/// Law: a remote batch is applied in an order that visits every event exactly once, never
/// puts an event before one of a lower dependency rank, and keeps the pulled order among
/// events of equal rank.
pub proof fn lemma_apply_order(types: Seq<SyncEntityType>)
    ensures
        forall|k: int|
            0 <= k < apply_order(types).len() ==> 0 <= #[trigger] apply_order(types)[k]
                < types.len(),
        forall|k: int, l: int|
            0 <= k < l < apply_order(types).len() ==> {
                let a = #[trigger] apply_order(types)[k];
                let b = #[trigger] apply_order(types)[l];
                dependency_rank(types[a]) < dependency_rank(types[b]) || (dependency_rank(
                    types[a],
                ) == dependency_rank(types[b]) && a < b)
            },
        forall|i: int| 0 <= i < types.len() ==> #[trigger] apply_order(types).contains(i),
{
    lemma_positions_of_rank(types, 0);
    lemma_positions_of_rank(types, 1);
    lemma_positions_of_rank(types, 2);
    let p0 = positions_of_rank(types, 0);
    let p1 = positions_of_rank(types, 1);
    let p2 = positions_of_rank(types, 2);
    let o = apply_order(types);
    assert(o == p0 + p1 + p2);
    assert forall|k: int| 0 <= k < o.len() implies 0 <= #[trigger] o[k] < types.len() by {
        if k < p0.len() {
            assert(o[k] == p0[k]);
        } else if k < p0.len() + p1.len() {
            assert(o[k] == p1[k - p0.len()]);
        } else {
            assert(o[k] == p2[k - p0.len() - p1.len()]);
        }
    }
    assert forall|k: int, l: int| 0 <= k < l < o.len() implies {
        let a = #[trigger] o[k];
        let b = #[trigger] o[l];
        dependency_rank(types[a]) < dependency_rank(types[b]) || (dependency_rank(types[a])
            == dependency_rank(types[b]) && a < b)
    } by {
        let n0 = p0.len() as int;
        let n1 = p1.len() as int;
        if k < n0 {
            assert(o[k] == p0[k]);
        } else if k < n0 + n1 {
            assert(o[k] == p1[k - n0]);
        } else {
            assert(o[k] == p2[k - n0 - n1]);
        }
        if l < n0 {
            assert(o[l] == p0[l]);
        } else if l < n0 + n1 {
            assert(o[l] == p1[l - n0]);
        } else {
            assert(o[l] == p2[l - n0 - n1]);
        }
    }
    assert forall|i: int| 0 <= i < types.len() implies #[trigger] o.contains(i) by {
        let r = dependency_rank(types[i]);
        if r == 0 {
            assert(positions_of_rank(types, 0).contains(i));
            let k = choose|k: int| 0 <= k < p0.len() && p0[k] == i;
            assert(o[k] == i);
        } else if r == 1 {
            assert(positions_of_rank(types, 1).contains(i));
            let k = choose|k: int| 0 <= k < p1.len() && p1[k] == i;
            assert(o[p0.len() + k] == i);
        } else {
            assert(positions_of_rank(types, 2).contains(i));
            let k = choose|k: int| 0 <= k < p2.len() && p2[k] == i;
            assert(o[p0.len() + p1.len() + k] == i);
        }
    }
}

/// `operation {op} is not supported for remote {kind} events`
pub open spec fn unsupported_operation_text(t: SyncEntityType, op: SyncOperation) -> Seq<char> {
    "operation "@ + op.text() + " is not supported for remote "@ + t.text() + " events"@
}

/// Whether a remote change of kind `t` can be applied: organizations and projects take no
/// transitions.
pub open spec fn operation_supported(t: SyncEntityType, op: SyncOperation) -> bool {
    !(op == SyncOperation::Transitioned && t != SyncEntityType::Task)
}

/// Refuse a remote operation that cannot be applied to its kind of entity.
pub fn check_remote_operation(entity_type: SyncEntityType, operation: SyncOperation) -> (r: Result<(), CoreError>)
    ensures
        operation_supported(entity_type, operation) <==> r is Ok,
        r matches Err(e) ==> e matches CoreError::Validation(m) && m@ == unsupported_operation_text(
            entity_type,
            operation,
        ),
{
    if operation == SyncOperation::Transitioned && entity_type != SyncEntityType::Task {
        let mut m = to_string("operation ");
        push_str(&mut m, operation.as_str());
        push_str(&mut m, " is not supported for remote ");
        push_str(&mut m, entity_type.as_str());
        push_str(&mut m, " events");
        return Err(CoreError::Validation(m));
    }
    Ok(())
}

/// What a remote archive does to the local entity: an organization is archived at the given
/// time, a project is archived and marked archived, a task is canceled; each is updated then.
pub open spec fn archived_entity(local: SyncEntity, archived_at: Timestamp) -> SyncEntity {
    match local {
        SyncEntity::Organization(o) => SyncEntity::Organization(
            Organization { archived_at: Some(archived_at), updated_at: archived_at, ..o },
        ),
        SyncEntity::Project(p) => SyncEntity::Project(
            Project {
                status: ProjectStatus::Archived,
                archived_at: Some(archived_at),
                updated_at: archived_at,
                ..p
            },
        ),
        SyncEntity::Task(t) => SyncEntity::Task(Task { status: TaskStatus::Canceled, updated_at: archived_at, ..t }),
    }
}

/// Apply a remote archive to the local entity.
pub fn apply_remote_archive(local: SyncEntity, archived_at: Timestamp) -> (r: SyncEntity)
    ensures
        r == archived_entity(local, archived_at),
{
    match local {
        SyncEntity::Organization(o) => SyncEntity::Organization(
            Organization { archived_at: Some(archived_at), updated_at: archived_at, ..o },
        ),
        SyncEntity::Project(p) => SyncEntity::Project(
            Project {
                status: ProjectStatus::Archived,
                archived_at: Some(archived_at),
                updated_at: archived_at,
                ..p
            },
        ),
        SyncEntity::Task(t) => SyncEntity::Task(Task { status: TaskStatus::Canceled, updated_at: archived_at, ..t }),
    }
}

/// What became of one remote event.
#[derive(Clone, Debug)]
pub struct RemoteApplyResult {
    pub event_id: String,
    pub entity_type: SyncEntityType,
    pub entity_id: String,
    pub operation: SyncOperation,
    pub status: RemoteApplyStatus,
    pub conflict_ids: Vec<String>,
    pub auto_resolved_conflict_count: usize,
}

/// What became of a batch of remote events, with counts by outcome.
#[derive(Clone, Debug)]
pub struct RemoteApplyBatchResult {
    pub applied_count: usize,
    pub already_applied_count: usize,
    pub skipped_local_echo_count: usize,
    pub conflict_count: usize,
    pub auto_resolved_conflict_count: usize,
    pub results: Vec<RemoteApplyResult>,
}

/// How many results have status `s`.
pub open spec fn count_status(rs: Seq<RemoteApplyResult>, s: RemoteApplyStatus) -> nat
    decreases rs.len(),
{
    if rs.len() == 0 {
        0
    } else {
        count_status(rs.drop_last(), s) + if rs.last().status == s {
            1nat
        } else {
            0nat
        }
    }
}

/// How many conflicts the results recorded in all.
pub open spec fn conflict_total(rs: Seq<RemoteApplyResult>) -> nat
    decreases rs.len(),
{
    if rs.len() == 0 {
        0
    } else {
        conflict_total(rs.drop_last()) + rs.last().conflict_ids@.len()
    }
}

/// How many conflicts the results resolved on their own in all.
pub open spec fn auto_resolved_total(rs: Seq<RemoteApplyResult>) -> nat
    decreases rs.len(),
{
    if rs.len() == 0 {
        0
    } else {
        auto_resolved_total(rs.drop_last()) + rs.last().auto_resolved_conflict_count as nat
    }
}

proof fn lemma_totals_grow(rs: Seq<RemoteApplyResult>, i: int, j: int)
    requires
        0 <= i <= j <= rs.len(),
    ensures
        conflict_total(rs.subrange(0, i)) <= conflict_total(rs.subrange(0, j)),
        auto_resolved_total(rs.subrange(0, i)) <= auto_resolved_total(rs.subrange(0, j)),
        count_status(rs.subrange(0, j), RemoteApplyStatus::Applied) <= j,
        count_status(rs.subrange(0, j), RemoteApplyStatus::AlreadyApplied) <= j,
        count_status(rs.subrange(0, j), RemoteApplyStatus::SkippedLocalEcho) <= j,
    decreases j,
{
    if j > 0 {
        assert(rs.subrange(0, j).drop_last() =~= rs.subrange(0, j - 1));
        if i < j {
            lemma_totals_grow(rs, i, j - 1);
        } else {
            lemma_totals_grow(rs, i - 1, j - 1);
        }
    }
}

/// Gather the results of a remote batch, in the order they were applied, with counts of each
/// outcome and of the conflicts recorded and resolved.
pub fn tally_remote_results(results: Vec<RemoteApplyResult>) -> (b: RemoteApplyBatchResult)
    requires
        conflict_total(results@) <= usize::MAX,
        auto_resolved_total(results@) <= usize::MAX,
    ensures
        b.applied_count == count_status(results@, RemoteApplyStatus::Applied),
        b.already_applied_count == count_status(results@, RemoteApplyStatus::AlreadyApplied),
        b.skipped_local_echo_count == count_status(results@, RemoteApplyStatus::SkippedLocalEcho),
        b.conflict_count == conflict_total(results@),
        b.auto_resolved_conflict_count == auto_resolved_total(results@),
        b.results@ == results@,
{
    let n = results.len();
    let mut applied: usize = 0;
    let mut already: usize = 0;
    let mut echo: usize = 0;
    let mut conflicts: usize = 0;
    let mut auto: usize = 0;
    let mut i: usize = 0;
    proof {
        assert(results@.subrange(0, 0) =~= Seq::<RemoteApplyResult>::empty());
    }
    while i < n
        invariant
            n == results@.len(),
            i <= n,
            conflict_total(results@) <= usize::MAX,
            auto_resolved_total(results@) <= usize::MAX,
            applied == count_status(results@.subrange(0, i as int), RemoteApplyStatus::Applied),
            already == count_status(
                results@.subrange(0, i as int),
                RemoteApplyStatus::AlreadyApplied,
            ),
            echo == count_status(results@.subrange(0, i as int), RemoteApplyStatus::SkippedLocalEcho),
            conflicts == conflict_total(results@.subrange(0, i as int)),
            auto == auto_resolved_total(results@.subrange(0, i as int)),
        decreases n - i,
    {
        let r = &results[i];
        proof {
            let pre = results@.subrange(0, i as int + 1);
            assert(pre.drop_last() =~= results@.subrange(0, i as int));
            assert(pre.last() == results@[i as int]);
            assert(results@.subrange(0, n as int) =~= results@);
            lemma_totals_grow(results@, i as int + 1, n as int);
            lemma_totals_grow(results@, i as int, i as int);
        }
        match r.status {
            RemoteApplyStatus::Applied => applied = applied + 1,
            RemoteApplyStatus::AlreadyApplied => already = already + 1,
            RemoteApplyStatus::SkippedLocalEcho => echo = echo + 1,
        }
        conflicts = conflicts + r.conflict_ids.len();
        auto = auto + r.auto_resolved_conflict_count;
        i = i + 1;
    }
    proof {
        assert(results@.subrange(0, n as int) =~= results@);
    }
    RemoteApplyBatchResult {
        applied_count: applied,
        already_applied_count: already,
        skipped_local_echo_count: echo,
        conflict_count: conflicts,
        auto_resolved_conflict_count: auto,
        results,
    }
}

/// Sync-state key of the enabled flag.
pub const SYNC_ENABLED_KEY: &'static str = "sync.enabled";
/// Sync-state key of the server URL.
pub const SYNC_SERVER_URL_KEY: &'static str = "sync.server_url";
/// Sync-state key of the device name.
pub const SYNC_DEVICE_NAME_KEY: &'static str = "sync.device_name";
/// Sync-state key of the account id.
pub const SYNC_ACCOUNT_ID_KEY: &'static str = "sync.account_id";
/// Sync-state key of the user id.
pub const SYNC_USER_ID_KEY: &'static str = "sync.user_id";
/// Sync-state key of the device token.
pub const SYNC_DEVICE_TOKEN_KEY: &'static str = "sync.device_token";
/// Sync-state key of the time of the last successful sync.
pub const SYNC_LAST_SUCCESSFUL_AT_KEY: &'static str = "sync.last_successful_sync_at";
/// Sync-state key of the time of the last attempted sync.
pub const SYNC_LAST_ATTEMPTED_AT_KEY: &'static str = "sync.last_attempted_sync_at";
/// Sync-state key of the last sync error.
pub const SYNC_LAST_ERROR_KEY: &'static str = "sync.last_error";
/// Sync-state key of this device's id.
pub const LOCAL_DEVICE_ID_KEY: &'static str = "local_device_id";

/// The name of a device that was given none.
pub const DEFAULT_DEVICE_NAME: &'static str = "Local device";

/// The sync settings of this device.
#[derive(Clone, Debug)]
pub struct SyncSettings {
    pub enabled: bool,
    pub server_url: Option<String>,
    pub device_name: String,
    pub account_id: Option<String>,
    pub user_id: Option<String>,
    pub device_token: Option<String>,
    pub last_successful_sync_at: Option<Timestamp>,
    pub last_attempted_sync_at: Option<Timestamp>,
}

impl Default for SyncSettings {
    fn default() -> (s: Self)
        ensures
            !s.enabled,
            s.server_url is None,
            s.device_name@ == DEFAULT_DEVICE_NAME@,
            s.account_id is None,
            s.user_id is None,
            s.device_token is None,
            s.last_successful_sync_at is None,
            s.last_attempted_sync_at is None,
    {
        SyncSettings {
            enabled: false,
            server_url: None,
            device_name: to_string(DEFAULT_DEVICE_NAME),
            account_id: None,
            user_id: None,
            device_token: None,
            last_successful_sync_at: None,
            last_attempted_sync_at: None,
        }
    }
}

/// A change to the sync settings: each `Some` replaces a setting, and for the optional
/// settings `Some(None)` clears it.
#[derive(Clone, Debug)]
pub struct SyncSettingsPatch {
    pub enabled: Option<bool>,
    pub server_url: Option<Option<String>>,
    pub device_name: Option<String>,
    pub account_id: Option<Option<String>>,
    pub user_id: Option<Option<String>>,
    pub device_token: Option<Option<String>>,
}

impl Default for SyncSettingsPatch {
    fn default() -> (p: Self)
        ensures
            p.enabled is None,
            p.server_url is None,
            p.device_name is None,
            p.account_id is None,
            p.user_id is None,
            p.device_token is None,
    {
        SyncSettingsPatch {
            enabled: None,
            server_url: None,
            device_name: None,
            account_id: None,
            user_id: None,
            device_token: None,
        }
    }
}

/// The characters of an optional string.
pub open spec fn opt_text(v: Option<String>) -> Option<Seq<char>> {
    match v {
        Some(s) => Some(s@),
        None => None,
    }
}

/// An optional setting as stored: trimmed, and absent when nothing is left.
pub open spec fn normalized(v: Option<String>) -> Option<Seq<char>> {
    match v {
        Some(s) => if trim_spec(s@).len() == 0 {
            None
        } else {
            Some(trim_spec(s@))
        },
        None => None,
    }
}

/// Trim an optional setting, dropping it when nothing is left.
pub fn normalize_optional(value: Option<String>) -> (r: Option<String>)
    ensures
        opt_text(r) == normalized(value),
{
    match value {
        Some(v) => {
            let t = trim(v.as_str());
            if t.unicode_len() == 0 {
                None
            } else {
                Some(to_string(t))
            }
        },
        None => None,
    }
}

/// Whether a sync server URL, if set, starts with `http://` or `https://`.
pub open spec fn server_url_ok(url: Option<Seq<char>>) -> bool {
    match url {
        None => true,
        Some(u) => (u.len() >= 7 && u.subrange(0, 7) == "http://"@) || (u.len() >= 8 && u.subrange(
            0,
            8,
        ) == "https://"@),
    }
}

/// The refusal of a sync server URL with another scheme.
pub open spec fn bad_server_url_text() -> Seq<char> {
    "sync server URL must start with http:// or https://"@
}

/// Accept a sync server URL only with an `http://` or `https://` scheme.
pub fn validate_server_url(server_url: Option<&str>) -> (r: Result<(), CoreError>)
    ensures
        match server_url {
            Some(u) => server_url_ok(Some(u@)),
            None => true,
        } <==> r is Ok,
        r matches Err(e) ==> e matches CoreError::Validation(m) && m@ == bad_server_url_text(),
{
    proof {
        reveal_strlit("http://");
        reveal_strlit("https://");
    }
    match server_url {
        Some(u) => {
            if !starts_with(u, "http://") && !starts_with(u, "https://") {
                Err(CoreError::Validation(to_string("sync server URL must start with http:// or https://")))
            } else {
                Ok(())
            }
        },
        None => Ok(()),
    }
}

/// An optional setting after a patch entry: replaced (normalized) or kept.
pub open spec fn patched_optional(p: Option<Option<String>>, current: Option<String>) -> Option<
    Seq<char>,
> {
    match p {
        Some(v) => normalized(v),
        None => opt_text(current),
    }
}

/// The device name after a patch entry: trimmed, or the default name when nothing is left.
pub open spec fn patched_device_name(p: Option<String>, current: Seq<char>) -> Seq<char> {
    match p {
        Some(n) => if trim_spec(n@).len() == 0 {
            DEFAULT_DEVICE_NAME@
        } else {
            trim_spec(n@)
        },
        None => current,
    }
}

fn patch_optional(p: Option<Option<String>>, current: Option<String>) -> (r: Option<String>)
    ensures
        opt_text(r) == patched_optional(p, current),
{
    match p {
        Some(v) => normalize_optional(v),
        None => current,
    }
}

/// Apply a patch to the sync settings. Fails, changing nothing, when the resulting server URL
/// has neither an `http://` nor an `https://` scheme.
pub fn apply_sync_settings_patch(settings: SyncSettings, patch: SyncSettingsPatch) -> (r: Result<
    SyncSettings,
    CoreError,
>)
    ensures
        server_url_ok(patched_optional(patch.server_url, settings.server_url)) <==> r is Ok,
        r matches Err(e) ==> e matches CoreError::Validation(m) && m@ == bad_server_url_text(),
        r matches Ok(s) ==> {
            &&& s.enabled == match patch.enabled {
                Some(b) => b,
                None => settings.enabled,
            }
            &&& opt_text(s.server_url) == patched_optional(patch.server_url, settings.server_url)
            &&& s.device_name@ == patched_device_name(patch.device_name, settings.device_name@)
            &&& opt_text(s.account_id) == patched_optional(patch.account_id, settings.account_id)
            &&& opt_text(s.user_id) == patched_optional(patch.user_id, settings.user_id)
            &&& opt_text(s.device_token) == patched_optional(
                patch.device_token,
                settings.device_token,
            )
            &&& s.last_successful_sync_at == settings.last_successful_sync_at
            &&& s.last_attempted_sync_at == settings.last_attempted_sync_at
        },
{
    let enabled = match patch.enabled {
        Some(b) => b,
        None => settings.enabled,
    };
    let server_url = patch_optional(patch.server_url, settings.server_url);
    let device_name = match patch.device_name {
        Some(n) => {
            let t = trim(n.as_str());
            if t.unicode_len() == 0 {
                to_string(DEFAULT_DEVICE_NAME)
            } else {
                to_string(t)
            }
        },
        None => settings.device_name,
    };
    let account_id = patch_optional(patch.account_id, settings.account_id);
    let user_id = patch_optional(patch.user_id, settings.user_id);
    let device_token = patch_optional(patch.device_token, settings.device_token);
    let checked = match &server_url {
        Some(u) => validate_server_url(Some(u.as_str())),
        None => validate_server_url(None),
    };
    match checked {
        Err(e) => Err(e),
        Ok(()) => Ok(
            SyncSettings {
                enabled,
                server_url,
                device_name,
                account_id,
                user_id,
                device_token,
                last_successful_sync_at: settings.last_successful_sync_at,
                last_attempted_sync_at: settings.last_attempted_sync_at,
            },
        ),
    }
}

/// `invalid sync.enabled: {value}`
pub open spec fn bad_enabled_text(value: Seq<char>) -> Seq<char> {
    "invalid sync.enabled: "@ + value
}

/// Read the stored enabled flag: absent or `false` is off, `true` is on, anything else is an
/// invalid stored value.
pub fn parse_sync_enabled(value: Option<&str>) -> (r: Result<bool, CoreError>)
    ensures
        match value {
            None => r == Ok::<bool, CoreError>(false),
            Some(v) => if v@ == "false"@ {
                r == Ok::<bool, CoreError>(false)
            } else if v@ == "true"@ {
                r == Ok::<bool, CoreError>(true)
            } else {
                r matches Err(CoreError::InvalidValue(m)) && m@ == bad_enabled_text(v@)
            },
        },
{
    match value {
        None => Ok(false),
        Some(v) => {
            if str_eq(v, "false") {
                Ok(false)
            } else if str_eq(v, "true") {
                Ok(true)
            } else {
                let mut m = to_string("invalid sync.enabled: ");
                push_str(&mut m, v);
                Err(CoreError::InvalidValue(m))
            }
        },
    }
}

/// The stored device name, or the default name when none (or only white space) is stored.
pub fn stored_device_name(value: Option<String>) -> (r: String)
    ensures
        r@ == match value {
            Some(v) => if trim_spec(v@).len() == 0 {
                DEFAULT_DEVICE_NAME@
            } else {
                v@
            },
            None => DEFAULT_DEVICE_NAME@,
        },
{
    match value {
        Some(v) => {
            if trim(v.as_str()).unicode_len() == 0 {
                to_string(DEFAULT_DEVICE_NAME)
            } else {
                v
            }
        },
        None => to_string(DEFAULT_DEVICE_NAME),
    }
}

/// The state of the sync connection: disabled, then not configured, then in error, else ready.
pub open spec fn connection_state(enabled: bool, configured: bool, has_error: bool) -> SyncConnectionState {
    if !enabled {
        SyncConnectionState::Disabled
    } else if !configured {
        SyncConnectionState::NotConfigured
    } else if has_error {
        SyncConnectionState::Error
    } else {
        SyncConnectionState::Ready
    }
}

/// The sync status shown to the user.
#[derive(Clone, Debug)]
pub struct SyncStatus {
    pub state: SyncConnectionState,
    pub enabled: bool,
    pub configured: bool,
    pub server_url: Option<String>,
    pub device_id: String,
    pub device_name: String,
    pub unsynced_event_count: i64,
    pub last_successful_sync_at: Option<Timestamp>,
    pub last_attempted_sync_at: Option<Timestamp>,
    pub last_error: Option<String>,
}

/// The sync status of a device with the given settings, count of unsynced events and last
/// error: configured when a server URL is set, its state by `connection_state`.
pub fn sync_status(
    device_id: String,
    settings: SyncSettings,
    unsynced_event_count: i64,
    last_error: Option<String>,
) -> (s: SyncStatus)
    ensures
        s.configured == settings.server_url is Some,
        s.state == connection_state(settings.enabled, settings.server_url is Some, last_error is Some),
        s.enabled == settings.enabled,
        opt_text(s.server_url) == opt_text(settings.server_url),
        s.device_id@ == device_id@,
        s.device_name@ == settings.device_name@,
        s.unsynced_event_count == unsynced_event_count,
        s.last_successful_sync_at == settings.last_successful_sync_at,
        s.last_attempted_sync_at == settings.last_attempted_sync_at,
        opt_text(s.last_error) == opt_text(last_error),
{
    let configured = settings.server_url.is_some();
    let state = if !settings.enabled {
        SyncConnectionState::Disabled
    } else if !configured {
        SyncConnectionState::NotConfigured
    } else if last_error.is_some() {
        SyncConnectionState::Error
    } else {
        SyncConnectionState::Ready
    };
    SyncStatus {
        state,
        enabled: settings.enabled,
        configured,
        server_url: settings.server_url,
        device_id,
        device_name: settings.device_name,
        unsynced_event_count,
        last_successful_sync_at: settings.last_successful_sync_at,
        last_attempted_sync_at: settings.last_attempted_sync_at,
        last_error,
    }
}

/// Law: storing an optional setting twice stores the same as storing it once.
pub proof fn lemma_normalized_is_stable(v: Option<String>, w: Option<String>)
    requires
        opt_text(w) == normalized(v),
    ensures
        normalized(w) == normalized(v),
{
    if let Some(s) = v {
        crate::text::lemma_trim_idempotent(s@);
    }
}

/// Law: a remote archive is always applied, whatever the policy and the local state; a
/// conflict is recorded exactly when the entity has unsynced local changes.
pub proof fn lemma_remote_archive_applies(
    t: SyncEntityType,
    remote: RemotePayload,
    local: Option<SyncEntity>,
    has_unsynced_local: bool,
    policy: ConflictPolicy,
)
    ensures
        applies_remote(conflict_rule(t, SyncOperation::Archived, remote, local, has_unsynced_local, policy)),
        conflict_rule(t, SyncOperation::Archived, remote, local, has_unsynced_local, policy) is Some
            <==> has_unsynced_local,
{
}

/// Law: a remote change to an entity with no unsynced local changes, and that would not bring
/// back an archived entity or reopen a finished task, applies without a conflict.
pub proof fn lemma_quiet_change_applies(
    t: SyncEntityType,
    op: SyncOperation,
    remote: RemotePayload,
    local: Option<SyncEntity>,
    policy: ConflictPolicy,
)
    requires
        !archive_protects(op, remote, local, policy),
        !terminal_protects(op, remote, local, policy),
    ensures
        conflict_rule(t, op, remote, local, false, policy) is None,
{
}

/// Law: under the default policy, a remote create or update does not bring back a locally
/// archived organization; the local state is kept and an open conflict is recorded.
pub proof fn lemma_archived_organization_kept(
    op: SyncOperation,
    remote: Organization,
    local: Organization,
    has_unsynced_local: bool,
)
    requires
        op == SyncOperation::Created || op == SyncOperation::Updated,
        local.archived_at is Some,
        remote.archived_at is None,
    ensures
        conflict_rule(
            SyncEntityType::Organization,
            op,
            RemotePayload::Entity(SyncEntity::Organization(remote)),
            Some(SyncEntity::Organization(local)),
            has_unsynced_local,
            default_conflict_policy(),
        ) == Some(
            open_conflict(false, SyncConflictKind::ArchiveVsUpdate, SyncConflictPolicyAction::KeptLocal),
        ),
{
}

/// Law: under the default policy, a remote create or update does not bring back a locally
/// archived project (archived by date or by status).
pub proof fn lemma_archived_project_kept(
    op: SyncOperation,
    remote: Project,
    local: Project,
    has_unsynced_local: bool,
)
    requires
        op == SyncOperation::Created || op == SyncOperation::Updated,
        local.archived_at is Some || local.status == ProjectStatus::Archived,
        remote.archived_at is None,
        remote.status != ProjectStatus::Archived,
    ensures
        !applies_remote(
            conflict_rule(
                SyncEntityType::Project,
                op,
                RemotePayload::Entity(SyncEntity::Project(remote)),
                Some(SyncEntity::Project(local)),
                has_unsynced_local,
                default_conflict_policy(),
            ),
        ),
{
}

/// Law: under the default policy, a remote update does not reopen a finished local task, but
/// an explicit remote transition is applied in server order.
pub proof fn lemma_finished_task_protected(
    remote: Task,
    local: Task,
    has_unsynced_local: bool,
)
    requires
        terminal_status(local.status),
        !terminal_status(remote.status),
    ensures
        conflict_rule(
            SyncEntityType::Task,
            SyncOperation::Updated,
            RemotePayload::Entity(SyncEntity::Task(remote)),
            Some(SyncEntity::Task(local)),
            has_unsynced_local,
            default_conflict_policy(),
        ) == Some(
            open_conflict(
                false,
                SyncConflictKind::TerminalStatusProtected,
                SyncConflictPolicyAction::KeptLocal,
            ),
        ),
        applies_remote(
            conflict_rule(
                SyncEntityType::Task,
                SyncOperation::Transitioned,
                RemotePayload::Entity(SyncEntity::Task(remote)),
                Some(SyncEntity::Task(local)),
                has_unsynced_local,
                default_conflict_policy(),
            ),
        ),
{
}

/// Law: terminal-status protection only stops a remote update that would reopen a finished
/// task. A remote update that leaves the task done or canceled never meets that protection,
/// and with no unsynced local changes it applies with no conflict, whatever the policy.
pub proof fn lemma_finished_update_not_protected(
    remote: Task,
    local: Task,
    has_unsynced_local: bool,
    policy: ConflictPolicy,
)
    requires
        terminal_status(remote.status),
    ensures
        conflict_rule(
            SyncEntityType::Task,
            SyncOperation::Updated,
            RemotePayload::Entity(SyncEntity::Task(remote)),
            Some(SyncEntity::Task(local)),
            has_unsynced_local,
            policy,
        ) matches Some(d) ==> d.conflict_kind != SyncConflictKind::TerminalStatusProtected,
        !has_unsynced_local ==> conflict_rule(
            SyncEntityType::Task,
            SyncOperation::Updated,
            RemotePayload::Entity(SyncEntity::Task(remote)),
            Some(SyncEntity::Task(local)),
            false,
            policy,
        ) is None,
{
}

/// Law: a remote change that meets unsynced local changes records an open conflict; it is
/// still applied unless the policy for that kind only records conflicts.
pub proof fn lemma_unsynced_change_recorded(
    t: SyncEntityType,
    op: SyncOperation,
    remote: RemotePayload,
    local: Option<SyncEntity>,
    policy: ConflictPolicy,
)
    requires
        op != SyncOperation::Archived,
        !archive_protects(op, remote, local, policy),
        !terminal_protects(op, remote, local, policy),
    ensures
        conflict_rule(t, op, remote, local, true, policy) matches Some(d) && d.conflict_kind
            == SyncConflictKind::LocalUnsyncedChangeVsRemoteUpdate && d.resolution_status
            == SyncConflictResolutionStatus::Open && (d.apply_remote <==> normal_update_of(policy, t)
            != FieldMergeStrategy::RecordConflict),
{
}

/// Law: the status of a device follows its settings: disabled sync is `Disabled` whatever
/// else holds, and an enabled, configured device without an error is `Ready`.
pub proof fn lemma_connection_state(enabled: bool, configured: bool, has_error: bool)
    ensures
        !enabled ==> connection_state(enabled, configured, has_error)
            == SyncConnectionState::Disabled,
        enabled && configured && !has_error ==> connection_state(enabled, configured, has_error)
            == SyncConnectionState::Ready,
        connection_state(enabled, configured, has_error) != SyncConnectionState::Syncing,
{
}

/// A change to one entity, as devices record and exchange it; `payload_json` is compact JSON.
#[derive(Clone, Debug, PartialEq, Eq)]
pub struct SyncEvent {
    pub event_id: String,
    pub device_id: String,
    pub actor_user_id: Option<String>,
    pub target_user_id: Option<String>,
    pub workspace_id: Option<String>,
    pub sequence: i64,
    pub entity_type: SyncEntityType,
    pub entity_id: String,
    pub operation: SyncOperation,
    pub payload_json: String,
    pub created_at: Timestamp,
    pub synced_at: Option<Timestamp>,
}

} // verus!
