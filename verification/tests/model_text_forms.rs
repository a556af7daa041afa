use openmgmt::models::{
    AiProviderKind, CalendarBlockStatus, LocalAiAccessMode, ProjectStatus, ProjectType, RecurrenceRule, TaskSortField,
    TaskStatus,
};

#[test]
fn task_statuses_read_back_from_their_text() {
    for status in [
        TaskStatus::Inbox,
        TaskStatus::Backlog,
        TaskStatus::Scheduled,
        TaskStatus::Ready,
        TaskStatus::InProgress,
        TaskStatus::Blocked,
        TaskStatus::Waiting,
        TaskStatus::Done,
        TaskStatus::Canceled,
    ] {
        assert_eq!(TaskStatus::parse(status.as_str()), Some(status));
    }
    assert_eq!(TaskStatus::InProgress.as_str(), "in_progress");
    assert_eq!(TaskStatus::parse("In_Progress"), None);
}

#[test]
fn project_and_schedule_values_read_back_from_their_text() {
    for kind in [ProjectType::Software, ProjectType::FilmStory, ProjectType::MarketingPr, ProjectType::Other] {
        assert_eq!(ProjectType::parse(kind.as_str()), Some(kind));
    }
    for status in [ProjectStatus::Active, ProjectStatus::Paused, ProjectStatus::Completed, ProjectStatus::Archived] {
        assert_eq!(ProjectStatus::parse(status.as_str()), Some(status));
    }
    for field in [TaskSortField::Urgency, TaskSortField::DueAt, TaskSortField::UpdatedAt, TaskSortField::Tag] {
        assert_eq!(TaskSortField::parse(field.as_str()), Some(field));
    }
    for rule in [RecurrenceRule::NoRecurrence, RecurrenceRule::Weekdays, RecurrenceRule::Monthly] {
        assert_eq!(RecurrenceRule::parse(rule.as_str()), Some(rule));
    }
    assert_eq!(RecurrenceRule::NoRecurrence.as_str(), "none");
    for status in [CalendarBlockStatus::Planned, CalendarBlockStatus::OnHold, CalendarBlockStatus::Canceled] {
        assert_eq!(CalendarBlockStatus::parse(status.as_str()), Some(status));
    }
    for mode in [LocalAiAccessMode::ReadOnly, LocalAiAccessMode::AskBeforeWrite, LocalAiAccessMode::FullAccess] {
        assert_eq!(LocalAiAccessMode::parse(mode.as_str()), Some(mode));
    }
    for kind in [AiProviderKind::OpenAi, AiProviderKind::LocalOpenAiCompatible, AiProviderKind::LmStudio] {
        assert_eq!(AiProviderKind::parse(kind.as_str()), Some(kind));
    }
    assert_eq!(ProjectType::parse("unknown"), None);
}
