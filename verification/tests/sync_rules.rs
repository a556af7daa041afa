use openmgmt::models::{Organization, Project, ProjectStatus, ProjectType, Task, TaskStatus};
use openmgmt::sync::{
    apply_remote_archive, apply_sync_settings_patch, check_remote_operation, check_remote_payload, is_terminal_task_status, normalize_optional,
    parse_sync_enabled, remote_apply_dependency_rank, remote_apply_order, remote_apply_status,
    remote_conflict_decision, stored_device_name, sync_status, tally_remote_results,
    validate_server_url, ArchiveConflictStrategy, ConflictPolicy, FieldMergeStrategy, RemoteApplyResult,
    RemoteApplyStatus, RemotePayload, RestoreConflictStrategy, StatusConflictStrategy, SyncConflictKind,
    SyncConflictPolicyAction, SyncConflictResolutionStatus, SyncConnectionState, SyncEntity,
    SyncEntityType, SyncOperation, SyncSettings, SyncSettingsPatch, TerminalStatusConflictStrategy,
};
use openmgmt::error::CoreError;

fn organization(id: &str, archived_at: Option<i64>) -> Organization {
    Organization {
        id: id.into(),
        name: "Remote Org".into(),
        slug: "remote-org".into(),
        description: None,
        color: None,
        icon: None,
        created_at: 0,
        updated_at: 0,
        archived_at,
    }
}

fn project(id: &str, status: ProjectStatus, archived_at: Option<i64>) -> Project {
    Project {
        id: id.into(),
        organization_id: "org-1".into(),
        name: "Remote Project".into(),
        slug: "remote-project".into(),
        description: None,
        project_type: ProjectType::Software,
        status,
        priority: 2,
        deadline: None,
        repo_url: None,
        notes: None,
        created_at: 0,
        updated_at: 0,
        archived_at,
    }
}

fn task(id: &str, status: TaskStatus) -> Task {
    Task {
        id: id.into(),
        project_id: "project-1".into(),
        title: "Remote task".into(),
        description: None,
        status,
        priority: 2,
        due_at: None,
        scheduled_at: None,
        scheduled_start_at: None,
        scheduled_end_at: None,
        deadline_at: None,
        reminder_at: None,
        recurrence_rule: None,
        recurrence_anchor_at: None,
        recurrence_timezone: None,
        calendar_block_id: None,
        started_at: None,
        completed_at: None,
        estimated_minutes: None,
        time_limit_minutes: None,
        pinned: false,
        blocked_reason: None,
        tags: Vec::new(),
        created_at: 0,
        updated_at: 0,
    }
}

fn result(status: RemoteApplyStatus, conflicts: usize, auto: usize) -> RemoteApplyResult {
    RemoteApplyResult {
        event_id: "e".into(),
        entity_type: SyncEntityType::Task,
        entity_id: "task-1".into(),
        operation: SyncOperation::Updated,
        status,
        conflict_ids: (0..conflicts).map(|i| format!("c{i}")).collect(),
        auto_resolved_conflict_count: auto,
    }
}

#[test]
fn default_conflict_policy_is_deterministic_and_serializable() {
    let policy = ConflictPolicy::default();
    assert_eq!(policy, ConflictPolicy::default());
    assert_eq!(policy.organization.normal_update, FieldMergeStrategy::LastWriteWinsWholeEntity);
    assert_eq!(policy.organization.archive_vs_update, ArchiveConflictStrategy::ArchiveWins);
    assert_eq!(policy.project.restore_behavior, RestoreConflictStrategy::ExplicitRestoreOnly);
    assert_eq!(policy.task.status_update, StatusConflictStrategy::ServerOrderWins);
    assert_eq!(
        policy.task.terminal_status_behavior,
        TerminalStatusConflictStrategy::ProtectDoneCanceledArchived
    );
    for kind in [SyncConflictKind::ArchiveVsUpdate, SyncConflictKind::TerminalStatusProtected] {
        assert_eq!(SyncConflictKind::parse(kind.as_str()), Some(kind));
    }
    assert_eq!(SyncConflictPolicyAction::KeptLocal.as_str(), "kept_local");
    assert_eq!(SyncConflictResolutionStatus::parse("ignored"), Some(SyncConflictResolutionStatus::Ignored));
}

#[test]
fn remote_local_echo_is_skipped_without_mutation() {
    assert_eq!(remote_apply_status("device-a", "device-a", false), RemoteApplyStatus::SkippedLocalEcho);
    assert_eq!(remote_apply_status("device-b", "device-a", true), RemoteApplyStatus::AlreadyApplied);
    assert_eq!(remote_apply_status("device-b", "device-a", false), RemoteApplyStatus::Applied);
}

#[test]
fn remote_batches_apply_dependency_order_even_when_pulled_out_of_order() {
    let types = [SyncEntityType::Task, SyncEntityType::Project, SyncEntityType::Organization, SyncEntityType::Task];
    assert_eq!(remote_apply_order(&types), vec![2, 1, 0, 3]);
    assert!(remote_apply_dependency_rank(SyncEntityType::Organization) < remote_apply_dependency_rank(SyncEntityType::Project));
    assert!(remote_apply_dependency_rank(SyncEntityType::Project) < remote_apply_dependency_rank(SyncEntityType::Task));
}

#[test]
fn remote_payloads_must_match_their_event() {
    let org = RemotePayload::Entity(SyncEntity::Organization(organization("org-1", None)));
    assert!(check_remote_payload(SyncEntityType::Organization, "org-1", SyncOperation::Created, &org).is_ok());
    let mismatch = check_remote_payload(SyncEntityType::Organization, "org-2", SyncOperation::Created, &org);
    assert!(matches!(mismatch, Err(CoreError::Validation(m)) if m == "remote event entity ID org-2 does not match payload ID org-1"));
    let wrong_kind = check_remote_payload(SyncEntityType::Project, "org-1", SyncOperation::Updated, &org);
    assert!(matches!(wrong_kind, Err(CoreError::Validation(m)) if m == "invalid remote project event entity"));
    let archive = RemotePayload::Archive { id: "org-1".into(), archived_at: 7 };
    assert!(check_remote_payload(SyncEntityType::Organization, "org-1", SyncOperation::Archived, &archive).is_ok());
    let not_archive = check_remote_payload(SyncEntityType::Task, "t", SyncOperation::Archived, &org);
    assert!(matches!(not_archive, Err(CoreError::Validation(m)) if m == "invalid remote task archive payload"));
    let missing = check_remote_payload(SyncEntityType::Task, "t", SyncOperation::Updated, &RemotePayload::Missing);
    assert!(matches!(missing, Err(CoreError::Validation(m)) if m == "remote task event payload is missing entity"));
}

#[test]
fn remote_organization_apply_is_atomic_and_deduplicated() {
    let policy = ConflictPolicy::default();
    let remote = RemotePayload::Entity(SyncEntity::Organization(organization("org-1", None)));
    let decision = remote_conflict_decision(
        SyncEntityType::Organization, "org-1", SyncOperation::Created, &remote, &None, false, &policy,
    )
    .unwrap();
    assert_eq!(decision, None);
}

#[test]
fn local_unsynced_task_update_records_conflict_and_remote_apply_succeeds() {
    let policy = ConflictPolicy::default();
    let remote = RemotePayload::Entity(SyncEntity::Task(task("task-1", TaskStatus::Ready)));
    let local = Some(SyncEntity::Task(task("task-1", TaskStatus::InProgress)));
    let decision = remote_conflict_decision(
        SyncEntityType::Task, "task-1", SyncOperation::Updated, &remote, &local, true, &policy,
    )
    .unwrap()
    .unwrap();
    assert!(decision.apply_remote);
    assert_eq!(decision.conflict_kind, SyncConflictKind::LocalUnsyncedChangeVsRemoteUpdate);
    assert_eq!(decision.policy_action, SyncConflictPolicyAction::AppliedRemote);
    assert_eq!(decision.resolution_status, SyncConflictResolutionStatus::Open);

    let mut recording = ConflictPolicy::default();
    recording.task.normal_update = FieldMergeStrategy::RecordConflict;
    let decision = remote_conflict_decision(
        SyncEntityType::Task, "task-1", SyncOperation::Updated, &remote, &local, true, &recording,
    )
    .unwrap()
    .unwrap();
    assert!(!decision.apply_remote);
    assert_eq!(decision.policy_action, SyncConflictPolicyAction::RecordedOnly);
}

#[test]
fn local_archived_organization_is_not_restored_by_remote_normal_update() {
    let policy = ConflictPolicy::default();
    let remote = RemotePayload::Entity(SyncEntity::Organization(organization("org-1", None)));
    let local = Some(SyncEntity::Organization(organization("org-1", Some(5))));
    let decision = remote_conflict_decision(
        SyncEntityType::Organization, "org-1", SyncOperation::Updated, &remote, &local, false, &policy,
    )
    .unwrap()
    .unwrap();
    assert!(!decision.apply_remote);
    assert_eq!(decision.conflict_kind, SyncConflictKind::ArchiveVsUpdate);
    assert_eq!(decision.policy_action, SyncConflictPolicyAction::KeptLocal);

    let remote_project = RemotePayload::Entity(SyncEntity::Project(project("p-1", ProjectStatus::Active, None)));
    let local_project = Some(SyncEntity::Project(project("p-1", ProjectStatus::Archived, None)));
    let decision = remote_conflict_decision(
        SyncEntityType::Project, "p-1", SyncOperation::Updated, &remote_project, &local_project, false, &policy,
    )
    .unwrap()
    .unwrap();
    assert!(!decision.apply_remote);
}

#[test]
fn remote_archive_wins_over_local_unsynced_project_update() {
    let policy = ConflictPolicy::default();
    let archive = RemotePayload::Archive { id: "p-1".into(), archived_at: 7 };
    let local = Some(SyncEntity::Project(project("p-1", ProjectStatus::Active, None)));
    let decision = remote_conflict_decision(
        SyncEntityType::Project, "p-1", SyncOperation::Archived, &archive, &local, true, &policy,
    )
    .unwrap()
    .unwrap();
    assert!(decision.apply_remote);
    assert_eq!(decision.conflict_kind, SyncConflictKind::ArchiveVsUpdate);
    assert_eq!(decision.policy_action, SyncConflictPolicyAction::AppliedRemote);
    // Without local changes an archive simply applies.
    assert_eq!(
        remote_conflict_decision(SyncEntityType::Project, "p-1", SyncOperation::Archived, &archive, &local, false, &policy)
            .unwrap(),
        None
    );
}

#[test]
fn local_terminal_task_is_not_reverted_by_remote_normal_update() {
    let policy = ConflictPolicy::default();
    let remote = RemotePayload::Entity(SyncEntity::Task(task("task-1", TaskStatus::Ready)));
    let local = Some(SyncEntity::Task(task("task-1", TaskStatus::Done)));
    let decision = remote_conflict_decision(
        SyncEntityType::Task, "task-1", SyncOperation::Updated, &remote, &local, false, &policy,
    )
    .unwrap()
    .unwrap();
    assert!(!decision.apply_remote);
    assert_eq!(decision.conflict_kind, SyncConflictKind::TerminalStatusProtected);
    assert_eq!(decision.policy_action, SyncConflictPolicyAction::KeptLocal);
    assert!(is_terminal_task_status(TaskStatus::Canceled));
    assert!(!is_terminal_task_status(TaskStatus::Blocked));
}

#[test]
fn explicit_remote_task_transition_uses_server_order_over_terminal_local_state() {
    let policy = ConflictPolicy::default();
    let remote = RemotePayload::Entity(SyncEntity::Task(task("task-1", TaskStatus::InProgress)));
    let local = Some(SyncEntity::Task(task("task-1", TaskStatus::Done)));
    let decision = remote_conflict_decision(
        SyncEntityType::Task, "task-1", SyncOperation::Transitioned, &remote, &local, false, &policy,
    )
    .unwrap();
    assert_eq!(decision, None);
}

#[test]
fn remote_results_are_tallied_by_outcome() {
    let batch = tally_remote_results(vec![
        result(RemoteApplyStatus::Applied, 1, 0),
        result(RemoteApplyStatus::AlreadyApplied, 0, 0),
        result(RemoteApplyStatus::SkippedLocalEcho, 0, 0),
        result(RemoteApplyStatus::Applied, 2, 1),
    ]);
    assert_eq!(batch.applied_count, 2);
    assert_eq!(batch.already_applied_count, 1);
    assert_eq!(batch.skipped_local_echo_count, 1);
    assert_eq!(batch.conflict_count, 3);
    assert_eq!(batch.auto_resolved_conflict_count, 1);
    assert_eq!(batch.results.len(), 4);
}

#[test]
fn default_sync_settings_and_status_are_disabled() {
    let settings = SyncSettings::default();
    assert!(!settings.enabled);
    assert_eq!(settings.server_url, None);
    assert_eq!(settings.device_name, "Local device");
    assert_eq!(settings.account_id, None);
    assert_eq!(settings.device_token, None);
    let status = sync_status("device-1".into(), settings, 0, None);
    assert_eq!(status.state, SyncConnectionState::Disabled);
    assert!(!status.enabled);
    assert!(!status.configured);
    assert_eq!(status.unsynced_event_count, 0);
}

#[test]
fn sync_status_moves_from_not_configured_to_ready() {
    let enabled = apply_sync_settings_patch(
        SyncSettings::default(),
        SyncSettingsPatch { enabled: Some(true), ..Default::default() },
    )
    .unwrap();
    assert_eq!(sync_status("d".into(), enabled.clone(), 0, None).state, SyncConnectionState::NotConfigured);
    let configured = apply_sync_settings_patch(
        enabled,
        SyncSettingsPatch { server_url: Some(Some("http://127.0.0.1:8787".into())), ..Default::default() },
    )
    .unwrap();
    let status = sync_status("d".into(), configured.clone(), 0, None);
    assert_eq!(status.state, SyncConnectionState::Ready);
    assert!(status.configured);
    assert_eq!(status.server_url.as_deref(), Some("http://127.0.0.1:8787"));
    let failed = sync_status("d".into(), configured.clone(), 2, Some("connection refused".into()));
    assert_eq!(failed.state, SyncConnectionState::Error);
    assert_eq!(failed.last_error.as_deref(), Some("connection refused"));
    assert_eq!(failed.unsynced_event_count, 2);
    assert_eq!(sync_status("d".into(), configured, 0, None).state, SyncConnectionState::Ready);
}

#[test]
fn sync_settings_validate_urls_and_normalize_empty_values() {
    let error = apply_sync_settings_patch(
        SyncSettings::default(),
        SyncSettingsPatch { server_url: Some(Some("ftp://example.com".into())), ..Default::default() },
    )
    .unwrap_err();
    assert!(matches!(error, CoreError::Validation(_)));

    let settings = apply_sync_settings_patch(
        SyncSettings::default(),
        SyncSettingsPatch {
            server_url: Some(Some("   ".into())),
            account_id: Some(Some(" ".into())),
            user_id: Some(Some("\t".into())),
            device_token: Some(Some("\n".into())),
            ..Default::default()
        },
    )
    .unwrap();
    assert_eq!(settings.server_url, None);
    assert_eq!(settings.account_id, None);
    assert_eq!(settings.user_id, None);
    assert_eq!(settings.device_token, None);

    assert!(validate_server_url(Some("https://sync.example.com")).is_ok());
    assert!(validate_server_url(None).is_ok());
    assert_eq!(normalize_optional(Some("  x ".into())), Some("x".to_string()));
}

#[test]
fn sync_device_name_update_persists_to_device_metadata() {
    let settings = apply_sync_settings_patch(
        SyncSettings::default(),
        SyncSettingsPatch { device_name: Some("Office Desktop".into()), ..Default::default() },
    )
    .unwrap();
    assert_eq!(settings.device_name, "Office Desktop");
    assert_eq!(stored_device_name(Some("Office Desktop".into())), "Office Desktop");
    assert_eq!(stored_device_name(Some("  ".into())), "Local device");
    assert_eq!(stored_device_name(None), "Local device");
}

#[test]
fn stored_enabled_flag_is_read_strictly() {
    assert_eq!(parse_sync_enabled(None).unwrap(), false);
    assert_eq!(parse_sync_enabled(Some("true")).unwrap(), true);
    assert_eq!(parse_sync_enabled(Some("false")).unwrap(), false);
    assert!(parse_sync_enabled(Some("yes")).is_err());
}

#[test]
fn remote_archives_archive_or_cancel_the_local_entity() {
    match apply_remote_archive(SyncEntity::Organization(organization("org-1", None)), 42) {
        SyncEntity::Organization(o) => {
            assert_eq!(o.archived_at, Some(42));
            assert_eq!(o.updated_at, 42);
            assert_eq!(o.name, "Remote Org");
        }
        other => panic!("expected an organization, got {other:?}"),
    }
    match apply_remote_archive(SyncEntity::Project(project("p-1", ProjectStatus::Active, None)), 42) {
        SyncEntity::Project(p) => {
            assert_eq!(p.status, ProjectStatus::Archived);
            assert_eq!(p.archived_at, Some(42));
        }
        other => panic!("expected a project, got {other:?}"),
    }
    match apply_remote_archive(SyncEntity::Task(task("t-1", TaskStatus::Ready)), 42) {
        SyncEntity::Task(t) => {
            assert_eq!(t.status, TaskStatus::Canceled);
            assert_eq!(t.updated_at, 42);
        }
        other => panic!("expected a task, got {other:?}"),
    }
}

#[test]
fn transitions_apply_to_tasks_only() {
    assert!(check_remote_operation(SyncEntityType::Task, SyncOperation::Transitioned).is_ok());
    assert!(check_remote_operation(SyncEntityType::Project, SyncOperation::Updated).is_ok());
    let refused = check_remote_operation(SyncEntityType::Organization, SyncOperation::Transitioned);
    assert!(matches!(refused, Err(CoreError::Validation(m)) if m == "operation transitioned is not supported for remote organization events"));
}

#[test]
fn applied_order_ignores_how_kinds_are_interleaved() {
    let (o, p, t) = (SyncEntityType::Organization, SyncEntityType::Project, SyncEntityType::Task);
    let applied = |batch: &[(SyncEntityType, &'static str)]| -> Vec<&'static str> {
        let types: Vec<SyncEntityType> = batch.iter().map(|e| e.0).collect();
        remote_apply_order(&types).into_iter().map(|i| batch[i].1).collect()
    };
    let first = [(t, "t1"), (p, "p1"), (o, "o1"), (t, "t2"), (p, "p2")];
    let second = [(o, "o1"), (p, "p1"), (t, "t1"), (p, "p2"), (t, "t2")];
    assert_eq!(applied(&first), vec!["o1", "p1", "p2", "t1", "t2"]);
    assert_eq!(applied(&first), applied(&second));
}

#[test]
fn unreadable_payloads_keep_the_parser_message() {
    let bad = RemotePayload::Unreadable("missing field `name`".into());
    match check_remote_payload(SyncEntityType::Project, "p-1", SyncOperation::Updated, &bad) {
        Err(CoreError::Validation(m)) => assert_eq!(m, "invalid remote project event entity: missing field `name`"),
        other => panic!("unexpected {other:?}"),
    }
    match check_remote_payload(SyncEntityType::Task, "t-1", SyncOperation::Archived, &bad) {
        Err(CoreError::Validation(m)) => assert_eq!(m, "invalid remote task archive payload: missing field `name`"),
        other => panic!("unexpected {other:?}"),
    }
}
